//! The focus and validation controller of a form: which input has the
//! focus, how the focus moves, and what a submit does.

use crate::event::{Action, AppEvent, AppEventView};
use crate::event_emitter::{due_time, without_clear, EmitterView, EventEmitter, ScheduledView};
use crate::field::{lemma_same_but_status, lemma_status_apart, Field};
use crate::form_step::{entries, Entry, FormStep};
use crate::input::{error_text, KeyEvent, KeyResult};
use crate::node::Node;
use crate::view_state::{same_text, ErrorDisplay, ViewState};
use vstd::arithmetic::div_mod::{
    lemma_add_mod_noop, lemma_add_mod_noop_right, lemma_fundamental_div_mod,
    lemma_fundamental_div_mod_converse, lemma_mod_bound, lemma_small_mod,
};
use vstd::prelude::*;

verus! {

/// What the controller sees of an input: its identity, what validation
/// finds for its value, its error slot and its focus flag.
pub struct FieldStatus {
    pub id: Seq<char>,
    pub failure: Option<Seq<char>>,
    pub error: Option<Seq<char>>,
    pub focused: bool,
}

/// The state that the controller works on: the inputs in order, the
/// position of the focused input among them, the error displays, the
/// scheduled events and the events emitted.
pub struct FormModel {
    pub fields: Seq<FieldStatus>,
    pub focused_pos: Option<int>,
    pub displays: Map<Seq<char>, ErrorDisplay>,
    pub scheduled: Seq<ScheduledView>,
    pub emitted: Seq<AppEventView>,
}

/// What the controller sees of an input.
pub open spec fn status(field: Field) -> FieldStatus {
    FieldStatus {
        id: field.spec_id(),
        failure: field.failure(),
        error: field.spec_error(),
        focused: field.spec_focused(),
    }
}

/// The input at position `p` among the inputs.
pub open spec fn field_at(nodes: Seq<Node>, indices: Seq<usize>, p: int) -> Field {
    nodes[indices[p] as int]->Input_0
}

/// What the controller sees of the inputs, in order.
pub open spec fn statuses(nodes: Seq<Node>, indices: Seq<usize>) -> Seq<FieldStatus> {
    Seq::new(indices.len(), |p: int| status(field_at(nodes, indices, p)))
}

/// Whether the indices are those of the inputs among the nodes, in order.
pub open spec fn structured(nodes: Seq<Node>, indices: Seq<usize>) -> bool {
    &&& forall|p: int| 0 <= p < indices.len() ==> (#[trigger] indices[p]) < nodes.len()
    &&& forall|p: int| 0 <= p < indices.len() ==> nodes[(#[trigger] indices[p]) as int] is Input
    &&& forall|p: int, q: int| 0 <= p < q < indices.len() ==> indices[p] < indices[q]
    &&& forall|i: int|
        0 <= i < nodes.len() && (#[trigger] nodes[i]) is Input ==> exists|p: int|
            0 <= p < indices.len() && indices[p] == i
}

/// The focus invariant: while there are inputs, one position is focused,
/// and the input there is the only one whose focus flag is set.
pub open spec fn focus_consistent(fields: Seq<FieldStatus>, focused_pos: Option<int>) -> bool {
    &&& fields.len() > 0 ==> focused_pos is Some
    &&& focused_pos matches Some(p) ==> 0 <= p < fields.len()
    &&& forall|p: int| 0 <= p < fields.len() ==> (#[trigger] fields[p]).focused == (focused_pos == Some(p))
}

/// The number of inputs whose focus flag is set.
pub open spec fn focused_count(fields: Seq<FieldStatus>) -> nat
    decreases fields.len(),
{
    if fields.len() == 0 {
        0
    } else {
        focused_count(fields.drop_last()) + if fields.last().focused {
            1nat
        } else {
            0nat
        }
    }
}

/// The model with the error slot of the input at `p` set.
pub open spec fn with_error(m: FormModel, p: int, error: Option<Seq<char>>) -> FormModel {
    FormModel { fields: m.fields.update(p, FieldStatus { error, ..m.fields[p] }), ..m }
}

/// The model with one more event emitted.
pub open spec fn with_event(m: FormModel, event: AppEventView) -> FormModel {
    FormModel { emitted: m.emitted.push(event), ..m }
}

/// The model after the error message of an input is dismissed: it is no
/// longer displayed, and its scheduled clearing is cancelled.
pub open spec fn dismissed(m: FormModel, id: Seq<char>) -> FormModel {
    FormModel { displays: m.displays.remove(id), scheduled: without_clear(m.scheduled, id), ..m }
}

/// The model after the focused input is validated: its error slot holds
/// what validation found, its error is not displayed inline, and a failure
/// is announced.
pub open spec fn validated_active(m: FormModel) -> FormModel {
    match m.focused_pos {
        None => m,
        Some(p) => {
            let field = m.fields[p];
            let checked = FormModel {
                displays: m.displays.remove(field.id),
                ..with_error(m, p, field.failure)
            };
            match field.failure {
                None => checked,
                Some(message) => with_event(
                    checked,
                    AppEventView::ValidationFailed { id: field.id, error: message },
                ),
            }
        },
    }
}

/// The model after the focus is put on the input at `to`: the input that
/// had the focus loses it, and the change is announced where the identity
/// of the focused input changes.
pub open spec fn refocused(m: FormModel, to: int) -> FormModel {
    let from_id = match m.focused_pos {
        Some(p) => Some(m.fields[p].id),
        None => None,
    };
    let to_id = Some(m.fields[to].id);
    let unfocused = match m.focused_pos {
        Some(p) => m.fields.update(p, FieldStatus { focused: false, ..m.fields[p] }),
        None => m.fields,
    };
    let moved = FormModel {
        fields: unfocused.update(to, FieldStatus { focused: true, ..unfocused[to] }),
        focused_pos: Some(to),
        ..m
    };
    if from_id != to_id {
        with_event(moved, AppEventView::FocusChanged { from: from_id, to: to_id })
    } else {
        moved
    }
}

/// The position that a move by `direction` from `pos` among `n` inputs
/// leads to, around the ends.
pub open spec fn shifted(pos: int, direction: int, n: int) -> int {
    (pos + direction) % n
}

/// The model after the focus moves by `direction` inputs: the focused input
/// is validated first, which does not hold the move up.
pub open spec fn focus_moved(m: FormModel, direction: int) -> FormModel {
    if m.fields.len() == 0 {
        m
    } else {
        let current = match m.focused_pos {
            Some(p) => p,
            None => 0,
        };
        refocused(validated_active(m), shifted(current, direction, m.fields.len() as int))
    }
}

/// The model after the error of the input at `p` is shown: the message is
/// in its error slot and displayed inline, and an event that clears the
/// display is scheduled for `due` in place of any earlier one.
pub open spec fn error_shown(m: FormModel, p: int, message: Seq<char>, due: u64) -> FormModel {
    let id = m.fields[p].id;
    FormModel {
        displays: m.displays.insert(id, ErrorDisplay::InlineMessage),
        scheduled: without_clear(m.scheduled, id).push(
            ScheduledView { due, event: AppEventView::ClearErrorMessage { id } },
        ),
        ..with_error(m, p, Some(message))
    }
}

/// The model after the error of the input at `p` is dropped: its error
/// slot is empty and its message dismissed.
pub open spec fn error_dropped(m: FormModel, p: int) -> FormModel {
    dismissed(with_error(m, p, None), m.fields[p].id)
}

/// The message of the first error for an identity.
pub open spec fn first_error_for(errors: Seq<Entry>, id: Seq<char>) -> Option<Seq<char>>
    decreases errors.len(),
{
    if errors.len() == 0 {
        None
    } else if errors[0].id == id {
        Some(errors[0].text)
    } else {
        first_error_for(errors.drop_first(), id)
    }
}

/// The model after the errors are applied to the first `k` inputs: an input
/// with an error among them shows it, any other drops its error.
pub open spec fn errors_applied(m: FormModel, errors: Seq<Entry>, due: u64, k: int) -> FormModel
    decreases k,
{
    if k <= 0 {
        m
    } else {
        let before = errors_applied(m, errors, due, k - 1);
        match first_error_for(errors, before.fields[k - 1].id) {
            Some(message) => error_shown(before, k - 1, message, due),
            None => error_dropped(before, k - 1),
        }
    }
}

/// The failures of the inputs, in order.
pub open spec fn status_failures(fields: Seq<FieldStatus>) -> Seq<Entry>
    decreases fields.len(),
{
    if fields.len() == 0 {
        Seq::empty()
    } else {
        let rest = status_failures(fields.drop_last());
        match fields.last().failure {
            Some(message) => rest.push(Entry { id: fields.last().id, text: message }),
            None => rest,
        }
    }
}

/// The model after each of the errors is announced, in order.
pub open spec fn failures_announced(m: FormModel, errors: Seq<Entry>) -> FormModel
    decreases errors.len(),
{
    if errors.len() == 0 {
        m
    } else {
        with_event(
            failures_announced(m, errors.drop_last()),
            AppEventView::ValidationFailed { id: errors.last().id, error: errors.last().text },
        )
    }
}

/// The position of the first input with the identity, or the number of
/// inputs where there is none.
pub open spec fn position_of(fields: Seq<FieldStatus>, id: Seq<char>) -> int
    decreases fields.len(),
{
    if fields.len() == 0 {
        0
    } else if fields[0].id == id {
        0
    } else {
        1 + position_of(fields.drop_first(), id)
    }
}

/// The model after a submit at the time `now`, and whether the form is
/// submitted. A focused input that fails its validation shows its error
/// and keeps the focus. One that passes drops its error; the focus moves
/// on to the next input; behind the last input all inputs are validated:
/// where all pass, the form is submitted, else every failing input shows
/// its error and the first of them gets the focus.
pub open spec fn submitted(m: FormModel, now: u64, timeout: u64) -> (FormModel, bool) {
    match m.focused_pos {
        None => (m, false),
        Some(p) => {
            let field = m.fields[p];
            match field.failure {
                Some(message) => (
                    with_event(
                        error_shown(m, p, message, due_time(now, timeout)),
                        AppEventView::ValidationFailed { id: field.id, error: message },
                    ),
                    false,
                ),
                None => {
                    let passed = error_dropped(m, p);
                    if p + 1 < m.fields.len() {
                        (refocused(passed, p + 1), false)
                    } else {
                        let errors = status_failures(passed.fields);
                        if errors.len() == 0 {
                            (with_event(passed, AppEventView::Submitted), true)
                        } else {
                            let shown = failures_announced(
                                errors_applied(
                                    passed,
                                    errors,
                                    due_time(now, timeout),
                                    passed.fields.len() as int,
                                ),
                                errors,
                            );
                            let first = position_of(shown.fields, errors[0].id);
                            if first < shown.fields.len() {
                                (refocused(shown, first), false)
                            } else {
                                (shown, false)
                            }
                        }
                    }
                },
            }
        },
    }
}

/// The model after the focused input was edited: `failure` is what
/// validation now finds for it, `changed` its new value where the value
/// changed, `submit` whether the input asked to submit. A change and a
/// request to submit are announced, a displayed error message is
/// dismissed, and the input is validated.
pub open spec fn edited(
    m: FormModel,
    failure: Option<Seq<char>>,
    changed: Option<Seq<char>>,
    submit: bool,
) -> FormModel {
    match m.focused_pos {
        None => m,
        Some(p) => {
            let id = m.fields[p].id;
            let typed = FormModel {
                fields: m.fields.update(p, FieldStatus { failure, ..m.fields[p] }),
                ..m
            };
            let announced = match changed {
                Some(value) => with_event(typed, AppEventView::InputChanged { id, value }),
                None => typed,
            };
            let asked = if submit {
                with_event(announced, AppEventView::Action(Action::Submit))
            } else {
                announced
            };
            validated_active(dismissed(asked, id))
        },
    }
}

/// The model after the event that clears the error message of an input
/// arrives: the message of that input is no longer displayed.
pub open spec fn message_cleared(m: FormModel, id: Seq<char>) -> FormModel {
    if position_of(m.fields, id) < m.fields.len() {
        FormModel { displays: m.displays.remove(id), ..m }
    } else {
        m
    }
}

/// The position after `k` moves by `direction`.
pub open spec fn shifted_times(pos: int, direction: int, n: int, k: nat) -> int
    decreases k,
{
    if k == 0 {
        pos
    } else {
        shifted(shifted_times(pos, direction, n, (k - 1) as nat), direction, n)
    }
}

/// A move leads to a position among the inputs.
pub proof fn lemma_shifted_in_range(pos: int, direction: int, n: int)
    requires
        n > 0,
    ensures
        0 <= shifted(pos, direction, n) < n,
{
    lemma_mod_bound(pos + direction, n);
}

/// After `k` moves to the next input the focus is `k` positions on, around
/// the end.
pub proof fn lemma_next_times(pos: int, n: int, k: nat)
    requires
        n > 0,
        0 <= pos < n,
    ensures
        shifted_times(pos, 1, n, k) == (pos + k) % n,
    decreases k,
{
    if k == 0 {
        lemma_small_mod(pos as nat, n as nat);
    } else {
        lemma_next_times(pos, n, (k - 1) as nat);
        lemma_add_mod_noop(pos + k - 1, 1, n);
        lemma_add_mod_noop_right((pos + k - 1) % n, 1, n);
    }
}

/// Cyclic navigation: as many moves to the next input as there are inputs
/// bring the focus back to where it was.
pub proof fn lemma_next_cycle(pos: int, n: int)
    requires
        n > 0,
        0 <= pos < n,
    ensures
        shifted_times(pos, 1, n, n as nat) == pos,
{
    lemma_next_times(pos, n, n as nat);
    lemma_fundamental_div_mod_converse(pos + n, n, 1, pos);
}

/// Cyclic navigation: a move to the input before, right after a move to
/// the next input, brings the focus back to where it was; and so the other
/// way round.
pub proof fn lemma_next_then_prev(pos: int, n: int)
    requires
        n > 0,
        0 <= pos < n,
    ensures
        shifted(shifted(pos, 1, n), -1, n) == pos,
        shifted(shifted(pos, -1, n), 1, n) == pos,
{
    lemma_add_mod_noop(pos + 1, -1, n);
    lemma_add_mod_noop_right((pos + 1) % n, -1, n);
    lemma_add_mod_noop(pos - 1, 1, n);
    lemma_add_mod_noop_right((pos - 1) % n, 1, n);
    lemma_small_mod(pos as nat, n as nat);
}

/// Whether no input but the one at the focused position has its focus flag
/// set.
pub open spec fn no_stray_focus(fields: Seq<FieldStatus>, focused_pos: Option<int>) -> bool {
    &&& focused_pos matches Some(p) ==> 0 <= p < fields.len()
    &&& forall|q: int|
        0 <= q < fields.len() && (#[trigger] fields[q]).focused ==> focused_pos == Some(q)
}

/// Putting the focus on an input establishes the focus invariant.
pub proof fn lemma_refocused(m: FormModel, to: int)
    requires
        no_stray_focus(m.fields, m.focused_pos),
        0 <= to < m.fields.len(),
    ensures
        focus_consistent(refocused(m, to).fields, refocused(m, to).focused_pos),
        refocused(m, to).focused_pos == Some(to),
        refocused(m, to).fields.len() == m.fields.len(),
{
}

/// Validating the focused input leaves focus and identities as they are.
pub proof fn lemma_validated_active(m: FormModel)
    requires
        focus_consistent(m.fields, m.focused_pos),
    ensures
        focus_consistent(validated_active(m).fields, validated_active(m).focused_pos),
        validated_active(m).focused_pos == m.focused_pos,
        validated_active(m).fields.len() == m.fields.len(),
{
}

/// The focus invariant holds after every move of the focus, and the focus
/// is where the move leads.
pub proof fn lemma_focus_moved(m: FormModel, direction: int)
    requires
        focus_consistent(m.fields, m.focused_pos),
    ensures
        focus_consistent(focus_moved(m, direction).fields, focus_moved(m, direction).focused_pos),
        focus_moved(m, direction).fields.len() == m.fields.len(),
        m.focused_pos matches Some(p) ==> focus_moved(m, direction).focused_pos == Some(
            shifted(p, direction, m.fields.len() as int),
        ),
{
    if m.fields.len() > 0 {
        lemma_validated_active(m);
        let current = m.focused_pos->0;
        lemma_shifted_in_range(current, direction, m.fields.len() as int);
        lemma_refocused(validated_active(m), shifted(current, direction, m.fields.len() as int));
    }
}

/// The model after `k` moves of the focus by `direction`.
pub open spec fn focus_moved_times(m: FormModel, direction: int, k: nat) -> FormModel
    decreases k,
{
    if k == 0 {
        m
    } else {
        focus_moved(focus_moved_times(m, direction, (k - 1) as nat), direction)
    }
}

/// Moves of the focus follow the positions around the inputs.
pub proof fn lemma_focus_moved_times(m: FormModel, direction: int, k: nat)
    requires
        focus_consistent(m.fields, m.focused_pos),
        m.fields.len() > 0,
    ensures
        focus_consistent(
            focus_moved_times(m, direction, k).fields,
            focus_moved_times(m, direction, k).focused_pos,
        ),
        focus_moved_times(m, direction, k).fields.len() == m.fields.len(),
        focus_moved_times(m, direction, k).focused_pos == Some(
            shifted_times(m.focused_pos->0, direction, m.fields.len() as int, k),
        ),
    decreases k,
{
    if k > 0 {
        lemma_focus_moved_times(m, direction, (k - 1) as nat);
        lemma_focus_moved(focus_moved_times(m, direction, (k - 1) as nat), direction);
    }
}

/// Cyclic navigation of a form: with the focus invariant in force, as many
/// moves to the next input as there are inputs bring the focus back to the
/// input that had it, and a move to the input before undoes a move to the
/// next input.
pub proof fn lemma_cyclic_navigation(m: FormModel)
    requires
        focus_consistent(m.fields, m.focused_pos),
        m.fields.len() > 0,
    ensures
        focus_moved_times(m, 1, m.fields.len()).focused_pos == m.focused_pos,
        focus_moved(focus_moved(m, 1), -1).focused_pos == m.focused_pos,
{
    let n = m.fields.len() as int;
    let p = m.focused_pos->0;
    lemma_focus_moved_times(m, 1, m.fields.len());
    lemma_next_cycle(p, n);
    lemma_focus_moved(m, 1);
    lemma_focus_moved(focus_moved(m, 1), -1);
    lemma_shifted_in_range(p, 1, n);
    lemma_next_then_prev(p, n);
}

/// With the focus invariant in force and at least one input, exactly one
/// input has its focus flag set.
pub proof fn lemma_one_focused(fields: Seq<FieldStatus>, focused_pos: Option<int>)
    requires
        focus_consistent(fields, focused_pos),
        fields.len() > 0,
    ensures
        focused_count(fields) == 1,
        fields[focused_pos->0].focused,
{
    lemma_count_prefix(fields, focused_pos->0, fields.len() as int);
    assert(fields.take(fields.len() as int) =~= fields);
}

proof fn lemma_count_prefix(fields: Seq<FieldStatus>, p: int, k: int)
    requires
        0 <= p < fields.len(),
        0 <= k <= fields.len(),
        forall|q: int| 0 <= q < fields.len() ==> (#[trigger] fields[q]).focused == (q == p),
    ensures
        focused_count(fields.take(k)) == if k > p {
            1nat
        } else {
            0nat
        },
    decreases k,
{
    if k > 0 {
        lemma_count_prefix(fields, p, k - 1);
        assert(fields.take(k).drop_last() =~= fields.take(k - 1));
        assert(fields.take(k).last() == fields[k - 1]);
    }
}

/// Whether the nodes `after` are the nodes `before` but for the focus flags
/// and error slots of the inputs.
pub open spec fn same_but_status(before: Seq<Node>, after: Seq<Node>) -> bool {
    &&& after.len() == before.len()
    &&& forall|i: int|
        0 <= i < before.len() ==> match #[trigger] before[i] {
            Node::Text(_) => after[i] == before[i],
            Node::Input(field) => after[i] is Input && field.same_but_status(&after[i]->Input_0),
        }
}

/// Whether the nodes `after` are the nodes `before` but for the focus flags
/// and error slots of the inputs and for the whole input at `at`.
pub open spec fn same_but_input(before: Seq<Node>, after: Seq<Node>, at: int) -> bool {
    &&& after.len() == before.len()
    &&& forall|i: int|
        0 <= i < before.len() && i != at ==> match #[trigger] before[i] {
            Node::Text(_) => after[i] == before[i],
            Node::Input(field) => after[i] is Input && field.same_but_status(&after[i]->Input_0),
        }
    &&& 0 <= at < before.len() ==> after[at] is Input
}

/// Replacing the input at a position replaces what the controller sees of
/// it, and keeps the structure.
pub proof fn lemma_update_field(nodes: Seq<Node>, indices: Seq<usize>, p: int, field: Field)
    requires
        structured(nodes, indices),
        0 <= p < indices.len(),
    ensures
        structured(nodes.update(indices[p] as int, Node::Input(field)), indices),
        statuses(nodes.update(indices[p] as int, Node::Input(field)), indices) == statuses(
            nodes,
            indices,
        ).update(p, status(field)),
{
    let after = nodes.update(indices[p] as int, Node::Input(field));
    assert forall|i: int| 0 <= i < after.len() && (#[trigger] after[i]) is Input implies exists|
        q: int,
    |
        0 <= q < indices.len() && indices[q] == i by {
        if i == indices[p] {
            assert(indices[p] == i);
        } else {
            assert(nodes[i] is Input);
        }
    }
    assert forall|q: int| 0 <= q < indices.len() implies status(field_at(after, indices, q))
        == statuses(nodes, indices).update(p, status(field))[q] by {
        if q != p {
            if q < p {
                assert(indices[q] < indices[p]);
            } else {
                assert(indices[p] < indices[q]);
            }
        }
    }
    assert(statuses(after, indices) =~= statuses(nodes, indices).update(p, status(field)));
}

/// The focus and validation controller of one screen.
#[derive(Debug)]
pub struct FormController {
    step: FormStep,
    input_indices: Vec<usize>,
    focused_pos: Option<usize>,
}

impl FormController {
    /// The nodes of the screen.
    pub closed spec fn nodes(&self) -> Seq<Node> {
        self.step.nodes@
    }

    /// The prompt of the screen.
    pub closed spec fn prompt(&self) -> Seq<char> {
        self.step.prompt@
    }

    /// The indices of the inputs among the nodes.
    pub closed spec fn indices(&self) -> Seq<usize> {
        self.input_indices@
    }

    /// The position among the inputs of the one that has the focus.
    pub closed spec fn spec_focused_pos(&self) -> Option<int> {
        match self.focused_pos {
            Some(p) => Some(p as int),
            None => None,
        }
    }

    /// What the controller sees of the inputs.
    pub open spec fn fields(&self) -> Seq<FieldStatus> {
        statuses(self.nodes(), self.indices())
    }

    /// The invariant of the controller: it knows the inputs among the
    /// nodes, and the focus invariant holds.
    pub open spec fn well_formed(&self) -> bool {
        &&& structured(self.nodes(), self.indices())
        &&& focus_consistent(self.fields(), self.spec_focused_pos())
    }

    /// The state that the controller works on, together with the error
    /// displays and the event emitter.
    pub open spec fn model(&self, view_state: &ViewState, emitter: &EventEmitter) -> FormModel {
        FormModel {
            fields: self.fields(),
            focused_pos: self.spec_focused_pos(),
            displays: view_state@,
            scheduled: emitter@.scheduled,
            emitted: emitter@.emitted,
        }
    }

    /// Whether `after` has the screen of this controller but for the focus
    /// flags and error slots of its inputs.
    pub open spec fn same_screen(&self, after: &FormController) -> bool {
        &&& after.indices() == self.indices()
        &&& after.prompt() == self.prompt()
        &&& same_but_status(self.nodes(), after.nodes())
    }

    /// The screen.
    pub closed spec fn spec_step(&self) -> FormStep {
        self.step
    }

    /// The render units of the screen.
    pub open spec fn spec_units(
        &self,
        displays: Map<Seq<char>, ErrorDisplay>,
        prompt_style: crate::style::StyleView,
        hint_style: crate::style::StyleView,
        error_style: crate::style::StyleView,
    ) -> Seq<crate::layout::UnitView> {
        self.spec_step().spec_units(displays, prompt_style, hint_style, error_style)
    }

    /// The screen.
    pub fn step(&self) -> (r: &FormStep)
        ensures
            *r == self.spec_step(),
            r.nodes@ == self.nodes(),
            r.prompt@ == self.prompt(),
    {
        &self.step
    }

    /// The position among the inputs of the one that has the focus.
    pub fn focused_pos(&self) -> (r: Option<usize>)
        ensures
            r is Some == self.spec_focused_pos() is Some,
            r matches Some(p) ==> self.spec_focused_pos() == Some(p as int),
    {
        self.focused_pos
    }

    /// The number of inputs.
    pub fn input_count(&self) -> (n: usize)
        ensures
            n == self.indices().len(),
    {
        self.input_indices.len()
    }

    /// The identity of the input at a position.
    fn input_id_at(&self, pos: usize) -> (r: String)
        requires
            structured(self.nodes(), self.indices()),
            pos < self.indices().len(),
        ensures
            r@ == self.fields()[pos as int].id,
    {
        let idx = self.input_indices[pos];
        match &self.step.nodes[idx] {
            Node::Input(field) => String::from_str(field.id()),
            Node::Text(_) => String::new(),
        }
    }

    /// The identity of the input that has the focus.
    pub fn focused_input_id(&self) -> (r: Option<String>)
        requires
            self.well_formed(),
        ensures
            r is Some == self.spec_focused_pos() is Some,
            r matches Some(id) ==> id@ == self.fields()[self.spec_focused_pos()->0].id,
    {
        match self.focused_pos {
            Some(pos) => Some(self.input_id_at(pos)),
            None => None,
        }
    }

    /// The position of the first input with the identity.
    fn find_input_pos_by_id(&self, id: &str) -> (r: Option<usize>)
        requires
            structured(self.nodes(), self.indices()),
        ensures
            r is Some <==> position_of(self.fields(), id@) < self.fields().len(),
            r matches Some(p) ==> p == position_of(self.fields(), id@),
    {
        let mut p: usize = 0;
        let ghost fields = self.fields();
        proof {
            assert(fields.skip(0) =~= fields);
        }
        while p < self.input_indices.len()
            invariant
                p <= self.input_indices.len(),
                structured(self.nodes(), self.indices()),
                fields == self.fields(),
                position_of(fields, id@) == p + position_of(fields.skip(p as int), id@),
            decreases self.input_indices.len() - p,
        {
            proof {
                assert(fields.skip(p as int)[0] == fields[p as int]);
                assert(fields.skip(p as int).drop_first() =~= fields.skip(p + 1));
            }
            let idx = self.input_indices[p];
            match &self.step.nodes[idx] {
                Node::Input(field) => {
                    if same_text(field.id(), id) {
                        return Some(p);
                    }
                },
                Node::Text(_) => {},
            }
            p += 1;
        }
        None
    }

    /// Sets the error slot of the input at a position.
    fn set_error_at(&mut self, pos: usize, error: Option<String>)
        requires
            structured(old(self).nodes(), old(self).indices()),
            pos < old(self).indices().len(),
        ensures
            structured(final(self).nodes(), final(self).indices()),
            old(self).same_screen(final(self)),
            final(self).spec_focused_pos() == old(self).spec_focused_pos(),
            final(self).fields() == old(self).fields().update(
                pos as int,
                FieldStatus { error: error_text(error), ..old(self).fields()[pos as int] },
            ),
    {
        let idx = self.input_indices[pos];
        let ghost before = self.nodes()[idx as int]->Input_0;
        proof {
            lemma_status_apart(before, true, error);
            lemma_same_but_status(before, before.with_error(error));
            lemma_update_field(self.nodes(), self.indices(), pos as int, before.with_error(error));
        }
        match &mut self.step.nodes[idx] {
            Node::Input(field) => {
                field.set_error(error);
            },
            Node::Text(_) => {},
        }
        proof {
            assert(self.nodes() =~= old(self).nodes().update(
                idx as int,
                Node::Input(before.with_error(error)),
            ));
            lemma_same_after_update(old(self).nodes(), idx as int, before.with_error(error));
        }
    }

    /// Sets the focus flag of the input at a position.
    fn set_focus_at(&mut self, pos: usize, focused: bool)
        requires
            structured(old(self).nodes(), old(self).indices()),
            pos < old(self).indices().len(),
        ensures
            structured(final(self).nodes(), final(self).indices()),
            old(self).same_screen(final(self)),
            final(self).spec_focused_pos() == old(self).spec_focused_pos(),
            final(self).fields() == old(self).fields().update(
                pos as int,
                FieldStatus { focused, ..old(self).fields()[pos as int] },
            ),
    {
        let idx = self.input_indices[pos];
        let ghost before = self.nodes()[idx as int]->Input_0;
        proof {
            lemma_status_apart(before, focused, None);
            lemma_same_but_status(before, before.with_focus(focused));
            lemma_update_field(self.nodes(), self.indices(), pos as int, before.with_focus(focused));
        }
        match &mut self.step.nodes[idx] {
            Node::Input(field) => {
                field.set_focused(focused);
            },
            Node::Text(_) => {},
        }
        proof {
            assert(self.nodes() =~= old(self).nodes().update(
                idx as int,
                Node::Input(before.with_focus(focused)),
            ));
            lemma_same_after_update(old(self).nodes(), idx as int, before.with_focus(focused));
        }
    }
}

/// Replacing an input by one that differs in focus flag and error slot
/// alone leaves the nodes the same but for the status of the inputs.
pub proof fn lemma_same_after_update(nodes: Seq<Node>, at: int, field: Field)
    requires
        0 <= at < nodes.len(),
        nodes[at] is Input,
        nodes[at]->Input_0.same_but_status(&field),
    ensures
        same_but_status(nodes, nodes.update(at, Node::Input(field))),
{
    let after = nodes.update(at, Node::Input(field));
    assert forall|i: int| 0 <= i < nodes.len() implies match #[trigger] nodes[i] {
        Node::Text(_) => after[i] == nodes[i],
        Node::Input(f) => after[i] is Input && f.same_but_status(&after[i]->Input_0),
    } by {
        if i != at {
            if let Node::Input(f) = nodes[i] {
                lemma_status_apart(f, true, None);
            }
        }
    }
}

/// Being the same but for the status of the inputs carries over two steps.
pub proof fn lemma_same_but_status_chain(first: Seq<Node>, second: Seq<Node>, third: Seq<Node>)
    requires
        same_but_status(first, second),
        same_but_status(second, third),
    ensures
        same_but_status(first, third),
{
    assert forall|i: int| 0 <= i < first.len() implies match #[trigger] first[i] {
        Node::Text(_) => third[i] == first[i],
        Node::Input(f) => third[i] is Input && f.same_but_status(&third[i]->Input_0),
    } by {
        let a = first[i];
        let b = second[i];
        assert(match a {
            Node::Text(_) => b == a,
            Node::Input(f) => b is Input && f.same_but_status(&b->Input_0),
        });
        assert(match b {
            Node::Text(_) => third[i] == b,
            Node::Input(f) => third[i] is Input && f.same_but_status(&third[i]->Input_0),
        });
        if let Node::Input(f) = a {
            crate::field::lemma_same_but_status_chain(f, b->Input_0, third[i]->Input_0);
        }
    }
}

/// The message of the first error for an identity.
fn find_error(errors: &[(String, String)], id: &str) -> (r: Option<String>)
    ensures
        crate::event::optional_text(r) == first_error_for(entries(errors@), id@),
{
    let mut i: usize = 0;
    let ghost all = entries(errors@);
    proof {
        assert(all.skip(0) =~= all);
    }
    while i < errors.len()
        invariant
            i <= errors.len(),
            all == entries(errors@),
            first_error_for(all, id@) == first_error_for(all.skip(i as int), id@),
        decreases errors.len() - i,
    {
        proof {
            assert(all.skip(i as int)[0] == all[i as int]);
            assert(all.skip(i as int).drop_first() =~= all.skip(i + 1));
        }
        if same_text(errors[i].0.as_str(), id) {
            return Some(errors[i].1.clone());
        }
        i += 1;
    }
    None
}

impl FormController {
    /// A controller for a screen. The first input gets the focus, and no
    /// other input keeps it.
    pub fn new(step: FormStep) -> (r: Self)
        ensures
            r.well_formed(),
            r.prompt() == step.prompt@,
            same_but_status(step.nodes@, r.nodes()),
            r.spec_focused_pos() == if r.indices().len() > 0 {
                Some(0int)
            } else {
                None
            },
            forall|i: int|
                0 <= i < step.nodes@.len() && (#[trigger] step.nodes@[i]) is Input ==> r.indices().contains(
                    i as usize,
                ),
    {
        let mut input_indices: Vec<usize> = Vec::new();
        let mut i: usize = 0;
        while i < step.nodes.len()
            invariant
                i <= step.nodes.len(),
                forall|p: int| 0 <= p < input_indices@.len() ==> (#[trigger] input_indices@[p]) < i,
                forall|p: int|
                    0 <= p < input_indices@.len() ==> step.nodes@[(
                    #[trigger] input_indices@[p]) as int] is Input,
                forall|p: int, q: int|
                    0 <= p < q < input_indices@.len() ==> input_indices@[p] < input_indices@[q],
                forall|k: int|
                    0 <= k < i && (#[trigger] step.nodes@[k]) is Input ==> exists|p: int|
                        0 <= p < input_indices@.len() && input_indices@[p] == k,
            decreases step.nodes.len() - i,
        {
            let ghost before = input_indices@;
            if step.nodes[i].is_input() {
                input_indices.push(i);
                proof {
                    assert forall|k: int|
                        0 <= k < i + 1 && (#[trigger] step.nodes@[k]) is Input implies exists|
                        p: int,
                    |
                        0 <= p < input_indices@.len() && input_indices@[p] == k by {
                        if k < i {
                            let p = choose|p: int| 0 <= p < before.len() && before[p] == k;
                            assert(input_indices@[p] == k);
                        } else {
                            assert(input_indices@[before.len() as int] == k);
                        }
                    }
                }
            } else {
                proof {
                    assert forall|k: int|
                        0 <= k < i + 1 && (#[trigger] step.nodes@[k]) is Input implies exists|
                        p: int,
                    |
                        0 <= p < input_indices@.len() && input_indices@[p] == k by {
                        let p = choose|p: int| 0 <= p < before.len() && before[p] == k;
                        assert(input_indices@[p] == k);
                    }
                }
            }
            i += 1;
        }
        let mut controller = FormController { step, input_indices, focused_pos: None };
        let ghost start = controller.nodes();
        proof {
            assert(structured(controller.nodes(), controller.indices()));
            assert(same_but_status(start, controller.nodes())) by {
                assert forall|i: int| 0 <= i < start.len() implies match #[trigger] start[i] {
                    Node::Text(_) => start[i] == start[i],
                    Node::Input(f) => start[i] is Input && f.same_but_status(&start[i]->Input_0),
                } by {
                    if let Node::Input(f) = start[i] {
                        lemma_status_apart(f, true, None);
                    }
                }
            }
            assert forall|i: int|
                0 <= i < start.len() && (#[trigger] start[i]) is Input implies controller.indices().contains(
                i as usize,
            ) by {
                let p = choose|p: int|
                    0 <= p < controller.indices().len() && controller.indices()[p] == i;
                assert(controller.indices()[p] == i as usize);
            }
        }
        let n = controller.input_indices.len();
        let mut p: usize = 0;
        while p < n
            invariant
                p <= n,
                n == controller.indices().len(),
                controller.indices() == input_indices@,
                controller.prompt() == step.prompt@,
                controller.spec_focused_pos() is None,
                structured(controller.nodes(), controller.indices()),
                same_but_status(start, controller.nodes()),
                forall|q: int| 0 <= q < p ==> (#[trigger] controller.fields()[q]).focused == (q == 0),
            decreases n - p,
        {
            let ghost before = controller.nodes();
            controller.set_focus_at(p, p == 0);
            proof {
                lemma_same_but_status_chain(start, before, controller.nodes());
            }
            p += 1;
        }
        let ghost fields = controller.fields();
        if n > 0 {
            controller.focused_pos = Some(0);
        }
        proof {
            assert(controller.fields() == fields);
            assert forall|q: int| 0 <= q < fields.len() implies (#[trigger] fields[q]).focused == (
            controller.spec_focused_pos() == Some(q)) by {
                assert(fields[q].focused == (q == 0));
            }
        }
        controller
    }

    /// Validates the focused input: its error slot takes what validation
    /// finds, the error is not displayed inline, and a failure is announced.
    fn validate_active_input(&mut self, view_state: &mut ViewState, emitter: &mut EventEmitter)
        requires
            old(self).well_formed(),
        ensures
            final(self).well_formed(),
            old(self).same_screen(final(self)),
            final(emitter)@.subscriptions == old(emitter)@.subscriptions,
            final(self).model(final(view_state), final(emitter)) == validated_active(
                old(self).model(old(view_state), old(emitter)),
            ),
    {
        let ghost m = self.model(view_state, emitter);
        proof {
            lemma_validated_active(m);
            lemma_same_nodes(self.nodes());
        }
        match self.focused_pos {
            Some(pos) => {
                let idx = self.input_indices[pos];
                let id = self.input_id_at(pos);
                let outcome = match &self.step.nodes[idx] {
                    Node::Input(field) => field.validate(),
                    Node::Text(_) => Ok(()),
                };
                match outcome {
                    Ok(()) => {
                        self.set_error_at(pos, None);
                        view_state.clear_error_display(id.as_str());
                    },
                    Err(message) => {
                        let event = AppEvent::ValidationFailed {
                            id: id.clone(),
                            error: message.clone(),
                        };
                        self.set_error_at(pos, Some(message));
                        view_state.clear_error_display(id.as_str());
                        emitter.emit(&event);
                    },
                }
                proof {
                    assert(self.model(view_state, emitter).fields =~= validated_active(m).fields);
                }
            },
            None => {},
        }
    }

    /// Dismisses the error message of the focused input: it is no longer
    /// displayed, and its scheduled clearing is cancelled.
    fn clear_error_message(&mut self, view_state: &mut ViewState, emitter: &mut EventEmitter)
        requires
            old(self).well_formed(),
        ensures
            *final(self) == *old(self),
            final(emitter)@.subscriptions == old(emitter)@.subscriptions,
            final(self).model(final(view_state), final(emitter)) == (match old(
                self,
            ).spec_focused_pos() {
                Some(p) => dismissed(
                    old(self).model(old(view_state), old(emitter)),
                    old(self).fields()[p].id,
                ),
                None => old(self).model(old(view_state), old(emitter)),
            }),
    {
        match self.focused_pos {
            Some(pos) => {
                let id = self.input_id_at(pos);
                view_state.clear_error_display(id.as_str());
                emitter.cancel_clear_error_message(id.as_str());
            },
            None => {},
        }
    }

    /// Puts the focus on the input at a position.
    fn update_focus(
        &mut self,
        to: usize,
        emitter: &mut EventEmitter,
        Ghost(view_state): Ghost<ViewState>,
    )
        requires
            old(self).well_formed(),
            to < old(self).indices().len(),
        ensures
            final(self).well_formed(),
            old(self).same_screen(final(self)),
            final(emitter)@.subscriptions == old(emitter)@.subscriptions,
            final(self).model(&view_state, final(emitter)) == refocused(
                old(self).model(&view_state, old(emitter)),
                to as int,
            ),
    {
        let ghost m = self.model(&view_state, emitter);
        let ghost start = self.nodes();
        proof {
            lemma_refocused(m, to as int);
            lemma_same_nodes(start);
        }
        let from_id = match self.focused_pos {
            Some(pos) => Some(self.input_id_at(pos)),
            None => None,
        };
        let to_id = self.input_id_at(to);
        match self.focused_pos {
            Some(pos) => {
                self.set_focus_at(pos, false);
            },
            None => {},
        }
        let ghost middle = self.nodes();
        self.set_focus_at(to, true);
        proof {
            lemma_same_but_status_chain(start, middle, self.nodes());
        }
        self.focused_pos = Some(to);
        let changed = match &from_id {
            Some(from) => !same_text(from.as_str(), to_id.as_str()),
            None => true,
        };
        if changed {
            emitter.emit(&AppEvent::FocusChanged { from: from_id, to: Some(to_id) });
        }
        proof {
            assert(self.model(&view_state, emitter).fields =~= refocused(m, to as int).fields);
        }
    }

    /// Moves the focus by `direction` inputs, around the ends. The focused
    /// input is validated first; a failure sets its error and does not hold
    /// the move up.
    pub fn move_focus(
        &mut self,
        direction: isize,
        view_state: &mut ViewState,
        event_emitter: &mut EventEmitter,
    )
        requires
            old(self).well_formed(),
        ensures
            final(self).well_formed(),
            old(self).same_screen(final(self)),
            final(event_emitter)@.subscriptions == old(event_emitter)@.subscriptions,
            final(self).model(final(view_state), final(event_emitter)) == focus_moved(
                old(self).model(old(view_state), old(event_emitter)),
                direction as int,
            ),
    {
        let n = self.input_indices.len();
        if n == 0 {
            return ;
        }
        let ghost m = self.model(view_state, event_emitter);
        let ghost start = self.nodes();
        self.validate_active_input(view_state, event_emitter);
        let current: usize = match self.focused_pos {
            Some(pos) => pos,
            None => 0,
        };
        let next = shift(current, direction, n);
        let ghost middle = self.nodes();
        self.update_focus(next, event_emitter, Ghost(*view_state));
        proof {
            lemma_same_but_status_chain(start, middle, self.nodes());
        }
    }
}

/// Nodes are the same as themselves but for the status of the inputs.
pub proof fn lemma_same_nodes(nodes: Seq<Node>)
    ensures
        same_but_status(nodes, nodes),
{
    assert forall|i: int| 0 <= i < nodes.len() implies match #[trigger] nodes[i] {
        Node::Text(_) => nodes[i] == nodes[i],
        Node::Input(f) => nodes[i] is Input && f.same_but_status(&nodes[i]->Input_0),
    } by {
        if let Node::Input(f) = nodes[i] {
            lemma_status_apart(f, true, None);
        }
    }
}

/// The position that a move by `direction` from `pos` among `n` inputs
/// leads to.
pub fn shift(pos: usize, direction: isize, n: usize) -> (r: usize)
    requires
        pos < n,
    ensures
        r == shifted(pos as int, direction as int, n as int),
        r < n,
{
    if direction >= 0 {
        let steps = (direction as usize) % n;
        proof {
            lemma_fundamental_div_mod(direction as int, n as int);
        }
        if steps >= n - pos {
            let r = pos - (n - steps);
            proof {
                let q = (direction as int) / (n as int);
                assert(pos + direction == (q + 1) * n + r) by (nonlinear_arith)
                    requires
                        direction == n * q + steps,
                        r == pos - (n - steps),
                ;
                lemma_fundamental_div_mod_converse(pos + direction, n as int, q + 1, r as int);
            }
            r
        } else {
            let r = pos + steps;
            proof {
                let q = (direction as int) / (n as int);
                assert(pos + direction == q * n + r) by (nonlinear_arith)
                    requires
                        direction == n * q + steps,
                        r == pos + steps,
                ;
                lemma_fundamental_div_mod_converse(pos + direction, n as int, q, r as int);
            }
            r
        }
    } else {
        let back_less_one = (-(direction + 1)) as usize;
        let steps = (back_less_one % n + 1) % n;
        proof {
            lemma_fundamental_div_mod(back_less_one as int, n as int);
            lemma_fundamental_div_mod(back_less_one as int % n as int + 1, n as int);
            lemma_add_mod_noop_right(1, back_less_one as int, n as int);
            lemma_fundamental_div_mod(-(direction as int), n as int);
            assert(steps == (-(direction as int)) % (n as int));
        }
        let ghost q = (-(direction as int)) / (n as int);
        if pos >= steps {
            let r = pos - steps;
            proof {
                assert(pos + direction == (-q) * n + r) by (nonlinear_arith)
                    requires
                        -direction == n * q + steps,
                        r == pos - steps,
                ;
                lemma_fundamental_div_mod_converse(pos + direction, n as int, -q, r as int);
            }
            r
        } else {
            let r = n - (steps - pos);
            proof {
                assert(pos + direction == (-q - 1) * n + r) by (nonlinear_arith)
                    requires
                        -direction == n * q + steps,
                        r == n - (steps - pos),
                ;
                lemma_fundamental_div_mod_converse(pos + direction, n as int, -q - 1, r as int);
            }
            r
        }
    }
}

/// Applying errors leaves the number of inputs, their identities, what
/// validation finds for them, their focus flags and the focus as they are.
pub proof fn lemma_errors_applied(m: FormModel, errors: Seq<Entry>, due: u64, k: int)
    requires
        0 <= k <= m.fields.len(),
    ensures
        errors_applied(m, errors, due, k).fields.len() == m.fields.len(),
        errors_applied(m, errors, due, k).focused_pos == m.focused_pos,
        errors_applied(m, errors, due, k).emitted == m.emitted,
        forall|q: int|
            0 <= q < m.fields.len() ==> (#[trigger] errors_applied(m, errors, due, k).fields[q]).id
                == m.fields[q].id && errors_applied(m, errors, due, k).fields[q].focused
                == m.fields[q].focused && errors_applied(m, errors, due, k).fields[q].failure
                == m.fields[q].failure,
        forall|q: int|
            k <= q < m.fields.len() ==> (#[trigger] errors_applied(m, errors, due, k).fields[q])
                == m.fields[q],
    decreases k,
{
    if k > 0 {
        lemma_errors_applied(m, errors, due, k - 1);
    }
}

/// Announcing failures touches nothing but the events emitted.
pub proof fn lemma_failures_announced(m: FormModel, errors: Seq<Entry>)
    ensures
        failures_announced(m, errors).fields == m.fields,
        failures_announced(m, errors).focused_pos == m.focused_pos,
        failures_announced(m, errors).displays == m.displays,
        failures_announced(m, errors).scheduled == m.scheduled,
    decreases errors.len(),
{
    if errors.len() > 0 {
        lemma_failures_announced(m, errors.drop_last());
    }
}

/// The focus invariant holds after every submit.
pub proof fn lemma_submitted(m: FormModel, now: u64, timeout: u64)
    requires
        focus_consistent(m.fields, m.focused_pos),
    ensures
        focus_consistent(submitted(m, now, timeout).0.fields, submitted(m, now, timeout).0.focused_pos),
        submitted(m, now, timeout).0.fields.len() == m.fields.len(),
{
    if let Some(p) = m.focused_pos {
        if m.fields[p].failure is None {
            let passed = error_dropped(m, p);
            if p + 1 < m.fields.len() {
                lemma_refocused(passed, p + 1);
            } else {
                let errors = status_failures(passed.fields);
                if errors.len() > 0 {
                    let due = due_time(now, timeout);
                    let applied = errors_applied(passed, errors, due, passed.fields.len() as int);
                    lemma_errors_applied(passed, errors, due, passed.fields.len() as int);
                    lemma_failures_announced(applied, errors);
                    let shown = failures_announced(applied, errors);
                    let first = position_of(shown.fields, errors[0].id);
                    if first < shown.fields.len() {
                        lemma_position_of(shown.fields, errors[0].id);
                        lemma_refocused(shown, first);
                    }
                }
            }
        }
    }
}

/// The position of the first input with an identity is not negative.
pub proof fn lemma_position_of(fields: Seq<FieldStatus>, id: Seq<char>)
    ensures
        0 <= position_of(fields, id) <= fields.len(),
        position_of(fields, id) < fields.len() ==> fields[position_of(fields, id)].id == id,
    decreases fields.len(),
{
    if fields.len() > 0 && fields[0].id != id {
        lemma_position_of(fields.drop_first(), id);
    }
}

/// The focus invariant holds after every edit.
pub proof fn lemma_edited(
    m: FormModel,
    failure: Option<Seq<char>>,
    changed: Option<Seq<char>>,
    submit: bool,
)
    requires
        focus_consistent(m.fields, m.focused_pos),
    ensures
        focus_consistent(
            edited(m, failure, changed, submit).fields,
            edited(m, failure, changed, submit).focused_pos,
        ),
        edited(m, failure, changed, submit).focused_pos == m.focused_pos,
{
}

impl FormController {
    /// Shows the error of the input at a position: the message goes into
    /// its error slot and is displayed inline, and a clearing of the
    /// display is scheduled for `due` in place of any earlier one.
    fn show_error_at(
        &mut self,
        pos: usize,
        message: String,
        due: u64,
        view_state: &mut ViewState,
        emitter: &mut EventEmitter,
    )
        requires
            old(self).well_formed(),
            pos < old(self).indices().len(),
        ensures
            final(self).well_formed(),
            old(self).same_screen(final(self)),
            final(emitter)@.subscriptions == old(emitter)@.subscriptions,
            final(self).model(final(view_state), final(emitter)) == error_shown(
                old(self).model(old(view_state), old(emitter)),
                pos as int,
                message@,
                due,
            ),
    {
        let ghost m = self.model(view_state, emitter);
        let id = self.input_id_at(pos);
        self.set_error_at(pos, Some(message));
        view_state.set_error_display(id.clone(), ErrorDisplay::InlineMessage);
        emitter.cancel_clear_error_message(id.as_str());
        emitter.emit_after(AppEvent::ClearErrorMessage { id }, 0, due);
        proof {
            assert(due_time(due, 0) == due);
            assert(self.model(view_state, emitter).fields =~= error_shown(
                m,
                pos as int,
                message@,
                due,
            ).fields);
        }
    }

    /// Drops the error of the input at a position: its error slot is
    /// emptied and its message dismissed.
    fn drop_error_at(&mut self, pos: usize, view_state: &mut ViewState, emitter: &mut EventEmitter)
        requires
            old(self).well_formed(),
            pos < old(self).indices().len(),
        ensures
            final(self).well_formed(),
            old(self).same_screen(final(self)),
            final(emitter)@.subscriptions == old(emitter)@.subscriptions,
            final(self).model(final(view_state), final(emitter)) == error_dropped(
                old(self).model(old(view_state), old(emitter)),
                pos as int,
            ),
    {
        let ghost m = self.model(view_state, emitter);
        let id = self.input_id_at(pos);
        self.set_error_at(pos, None);
        view_state.clear_error_display(id.as_str());
        emitter.cancel_clear_error_message(id.as_str());
        proof {
            assert(self.model(view_state, emitter).fields =~= error_dropped(m, pos as int).fields);
        }
    }

    /// Applies the errors of a validation of all inputs at the time `now`:
    /// an input with an error among them shows the first such error, with
    /// a clearing of the display scheduled after the timeout; any other
    /// input drops its error.
    pub fn apply_validation_errors(
        &mut self,
        errors: &[(String, String)],
        view_state: &mut ViewState,
        event_emitter: &mut EventEmitter,
        error_timeout: u64,
        now: u64,
    )
        requires
            old(self).well_formed(),
        ensures
            final(self).well_formed(),
            old(self).same_screen(final(self)),
            final(event_emitter)@.subscriptions == old(event_emitter)@.subscriptions,
            final(self).model(final(view_state), final(event_emitter)) == errors_applied(
                old(self).model(old(view_state), old(event_emitter)),
                entries(errors@),
                due_time(now, error_timeout),
                old(self).fields().len() as int,
            ),
    {
        let ghost m = self.model(view_state, event_emitter);
        let ghost start = self.nodes();
        let due: u64 = if error_timeout > u64::MAX - now {
            u64::MAX
        } else {
            now + error_timeout
        };
        let n = self.input_indices.len();
        let mut pos: usize = 0;
        proof {
            lemma_same_nodes(start);
        }
        while pos < n
            invariant
                pos <= n,
                n == m.fields.len(),
                n == self.indices().len(),
                due == due_time(now, error_timeout),
                self.well_formed(),
                old(self).same_screen(self),
                start == old(self).nodes(),
                event_emitter@.subscriptions == old(event_emitter)@.subscriptions,
                self.model(view_state, event_emitter) == errors_applied(
                    m,
                    entries(errors@),
                    due,
                    pos as int,
                ),
            decreases n - pos,
        {
            let ghost middle = self.nodes();
            let id = self.input_id_at(pos);
            match find_error(errors, id.as_str()) {
                Some(message) => {
                    self.show_error_at(pos, message, due, view_state, event_emitter);
                },
                None => {
                    self.drop_error_at(pos, view_state, event_emitter);
                },
            }
            proof {
                lemma_same_but_status_chain(start, middle, self.nodes());
            }
            pos += 1;
        }
    }

    /// The failures of the inputs, in order: identity and message of every
    /// input whose value fails its validation.
    fn collect_failures(&self) -> (r: Vec<(String, String)>)
        requires
            self.well_formed(),
        ensures
            entries(r@) == status_failures(self.fields()),
    {
        let mut found: Vec<(String, String)> = Vec::new();
        let mut pos: usize = 0;
        let ghost fields = self.fields();
        proof {
            assert(fields.take(0) =~= Seq::<FieldStatus>::empty());
            assert(entries(found@) =~= Seq::<Entry>::empty());
        }
        while pos < self.input_indices.len()
            invariant
                pos <= self.input_indices.len(),
                self.well_formed(),
                fields == self.fields(),
                entries(found@) == status_failures(fields.take(pos as int)),
            decreases self.input_indices.len() - pos,
        {
            proof {
                assert(fields.take(pos + 1).drop_last() =~= fields.take(pos as int));
                assert(fields.take(pos + 1).last() == fields[pos as int]);
            }
            let idx = self.input_indices[pos];
            match &self.step.nodes[idx] {
                Node::Input(field) => {
                    match field.validate() {
                        Ok(()) => {},
                        Err(message) => {
                            let ghost before = entries(found@);
                            let id = String::from_str(field.id());
                            found.push((id, message));
                            assert(entries(found@) =~= before.push(
                                Entry { id: id@, text: message@ },
                            ));
                        },
                    }
                },
                Node::Text(_) => {},
            }
            pos += 1;
        }
        assert(fields.take(pos as int) =~= fields);
        found
    }

    /// A submit at the time `now`. Answers whether the form is submitted.
    ///
    /// A focused input that fails its validation shows its error, with a
    /// clearing of the display scheduled after the timeout, announces the
    /// failure and keeps the focus. One that passes drops its error, and
    /// the focus moves on to the next input. Behind the last input all
    /// inputs are validated: where all pass, the submission is announced;
    /// else every failing input shows its error, each failure is
    /// announced, and the first failing input gets the focus.
    pub fn handle_submit(
        &mut self,
        view_state: &mut ViewState,
        event_emitter: &mut EventEmitter,
        error_timeout: u64,
        now: u64,
    ) -> (r: bool)
        requires
            old(self).well_formed(),
        ensures
            final(self).well_formed(),
            old(self).same_screen(final(self)),
            final(event_emitter)@.subscriptions == old(event_emitter)@.subscriptions,
            (final(self).model(final(view_state), final(event_emitter)), r) == submitted(
                old(self).model(old(view_state), old(event_emitter)),
                now,
                error_timeout,
            ),
    {
        let ghost m = self.model(view_state, event_emitter);
        let ghost start = self.nodes();
        proof {
            lemma_same_nodes(start);
        }
        let pos = match self.focused_pos {
            Some(pos) => pos,
            None => {
                return false;
            },
        };
        let idx = self.input_indices[pos];
        let outcome = match &self.step.nodes[idx] {
            Node::Input(field) => field.validate(),
            Node::Text(_) => Ok(()),
        };
        match outcome {
            Err(message) => {
                let id = self.input_id_at(pos);
                let due: u64 = if error_timeout > u64::MAX - now {
                    u64::MAX
                } else {
                    now + error_timeout
                };
                let event = AppEvent::ValidationFailed { id, error: message.clone() };
                self.show_error_at(pos, message, due, view_state, event_emitter);
                event_emitter.emit(&event);
                false
            },
            Ok(()) => {
                self.drop_error_at(pos, view_state, event_emitter);
                let ghost passed = self.model(view_state, event_emitter);
                let ghost second = self.nodes();
                let count = self.input_indices.len();
                assert(pos < count);
                if pos + 1 < count {
                    self.update_focus(pos + 1, event_emitter, Ghost(*view_state));
                    proof {
                        lemma_same_but_status_chain(start, second, self.nodes());
                    }
                    return false;
                }
                let errors = self.collect_failures();
                if errors.len() == 0 {
                    event_emitter.emit(&AppEvent::Submitted);
                    return true;
                }
                self.apply_validation_errors(
                    errors.as_slice(),
                    view_state,
                    event_emitter,
                    error_timeout,
                    now,
                );
                let ghost applied = self.model(view_state, event_emitter);
                let ghost third = self.nodes();
                proof {
                    lemma_same_but_status_chain(start, second, third);
                    lemma_errors_applied(
                        passed,
                        entries(errors@),
                        due_time(now, error_timeout),
                        passed.fields.len() as int,
                    );
                }
                let mut i: usize = 0;
                proof {
                    assert(entries(errors@).take(0) =~= Seq::<Entry>::empty());
                }
                while i < errors.len()
                    invariant
                        i <= errors.len(),
                        self.well_formed(),
                        self.nodes() == third,
                        self.indices() == old(self).indices(),
                        self.prompt() == old(self).prompt(),
                        event_emitter@.subscriptions == old(event_emitter)@.subscriptions,
                        self.model(view_state, event_emitter) == failures_announced(
                            applied,
                            entries(errors@).take(i as int),
                        ),
                    decreases errors.len() - i,
                {
                    proof {
                        assert(entries(errors@).take(i + 1).drop_last() =~= entries(errors@).take(
                            i as int,
                        ));
                        assert(entries(errors@).take(i + 1).last() == entries(errors@)[i as int]);
                    }
                    event_emitter.emit(
                        &AppEvent::ValidationFailed {
                            id: errors[i].0.clone(),
                            error: errors[i].1.clone(),
                        },
                    );
                    i += 1;
                }
                proof {
                    assert(entries(errors@).take(i as int) =~= entries(errors@));
                    lemma_failures_announced(applied, entries(errors@));
                }
                match self.find_input_pos_by_id(errors[0].0.as_str()) {
                    Some(first) => {
                        self.update_focus(first, event_emitter, Ghost(*view_state));
                        proof {
                            lemma_same_but_status_chain(start, third, self.nodes());
                        }
                    },
                    None => {},
                }
                false
            },
        }
    }

    /// The event that clears the error message of an input has arrived: the
    /// message of that input is no longer displayed.
    pub fn handle_clear_error_message(&mut self, id: &str, view_state: &mut ViewState)
        requires
            old(self).well_formed(),
        ensures
            *final(self) == *old(self),
            final(view_state)@ == if position_of(old(self).fields(), id@) < old(
                self,
            ).fields().len() {
                old(view_state)@.remove(id@)
            } else {
                old(view_state)@
            },
    {
        match self.find_input_pos_by_id(id) {
            Some(_) => {
                view_state.clear_error_display(id);
            },
            None => {},
        }
    }
}

/// The new value of an input where it differs from the old one.
pub open spec fn change_of(before: Seq<char>, after: Seq<char>) -> Option<Seq<char>> {
    if before == after {
        None
    } else {
        Some(after)
    }
}

/// An input without the status that the controller gave it: with the focus
/// flag and the error slot of `origin`.
pub open spec fn with_status_of(field: Field, origin: Field) -> Field {
    field.with_focus(origin.spec_focused()).with_error(origin.raw_error())
}

impl FormController {
    /// The input that has the focus.
    pub open spec fn focused_field(&self) -> Field {
        field_at(self.nodes(), self.indices(), self.spec_focused_pos()->0)
    }

    /// Whether `after` has the screen of this controller but for the focus
    /// flags and error slots of its inputs and for the input that has the
    /// focus.
    pub open spec fn same_screen_but_focused(&self, after: &FormController) -> bool {
        &&& after.indices() == self.indices()
        &&& after.prompt() == self.prompt()
        &&& after.spec_focused_pos() == self.spec_focused_pos()
        &&& match self.spec_focused_pos() {
            Some(p) => same_but_input(self.nodes(), after.nodes(), self.indices()[p] as int),
            None => after.nodes() == self.nodes(),
        }
    }

    /// What follows an edit of the focused input: a change of the value and
    /// a request to submit are announced, a displayed error message is
    /// dismissed, and the input is validated.
    fn after_edit(
        &mut self,
        pos: usize,
        before: String,
        after: String,
        submit: bool,
        view_state: &mut ViewState,
        emitter: &mut EventEmitter,
        Ghost(m): Ghost<FormModel>,
    )
        requires
            old(self).well_formed(),
            old(self).spec_focused_pos() == Some(pos as int),
            m.focused_pos == Some(pos as int),
            0 <= pos < m.fields.len(),
            old(self).model(old(view_state), old(emitter)) == (FormModel {
                fields: m.fields.update(
                    pos as int,
                    FieldStatus { failure: old(self).focused_field().failure(), ..m.fields[pos as int] },
                ),
                ..m
            }),
        ensures
            final(self).well_formed(),
            old(self).same_screen(final(self)),
            final(self).spec_focused_pos() == old(self).spec_focused_pos(),
            final(emitter)@.subscriptions == old(emitter)@.subscriptions,
            final(self).model(final(view_state), final(emitter)) == edited(
                m,
                old(self).focused_field().failure(),
                change_of(before@, after@),
                submit,
            ),
    {
        let id = self.input_id_at(pos);
        if !same_text(before.as_str(), after.as_str()) {
            emitter.emit(&AppEvent::InputChanged { id: id.clone(), value: after });
        }
        if submit {
            emitter.emit(&AppEvent::Action(Action::Submit));
        }
        self.clear_error_message(view_state, emitter);
        self.validate_active_input(view_state, emitter);
    }

    /// A key for the focused input. The input handles the key; then a
    /// change of its value and a request to submit are announced, a
    /// displayed error message is dismissed, and the input is validated.
    pub fn handle_input_key(
        &mut self,
        key_event: KeyEvent,
        view_state: &mut ViewState,
        event_emitter: &mut EventEmitter,
    )
        requires
            old(self).well_formed(),
        ensures
            final(self).well_formed(),
            old(self).same_screen_but_focused(final(self)),
            final(event_emitter)@.subscriptions == old(event_emitter)@.subscriptions,
            old(self).spec_focused_pos() is Some ==> old(self).focused_field().key_applied(
                &with_status_of(final(self).focused_field(), old(self).focused_field()),
                key_event.code,
                key_event.modifiers,
            ),
            final(self).model(final(view_state), final(event_emitter)) == (if old(
                self,
            ).spec_focused_pos() is Some {
                edited(
                    old(self).model(old(view_state), old(event_emitter)),
                    final(self).focused_field().failure(),
                    change_of(
                        old(self).focused_field().spec_value(),
                        final(self).focused_field().spec_value(),
                    ),
                    old(self).focused_field().key_result(key_event.code, key_event.modifiers)
                        == KeyResult::Submit,
                )
            } else {
                old(self).model(old(view_state), old(event_emitter))
            }),
    {
        let pos = match self.focused_pos {
            Some(pos) => pos,
            None => {
                return ;
            },
        };
        let ghost m = self.model(view_state, event_emitter);
        let ghost start = self.nodes();
        let idx = self.input_indices[pos];
        let ghost origin = self.focused_field();
        let mut before = String::new();
        let mut after = String::new();
        let mut result = KeyResult::NotHandled;
        match &mut self.step.nodes[idx] {
            Node::Input(field) => {
                before = field.value();
                result = field.handle_key(key_event.code, key_event.modifiers);
                after = field.value();
            },
            Node::Text(_) => {},
        }
        let ghost typed = self.nodes()[idx as int]->Input_0;
        let ghost middle = self.nodes();
        proof {
            assert(middle =~= start.update(idx as int, Node::Input(typed)));
            lemma_update_field(start, self.indices(), pos as int, typed);
            lemma_same_nodes(start);
            assert(self.fields() =~= m.fields.update(
                pos as int,
                FieldStatus { failure: typed.failure(), ..m.fields[pos as int] },
            ));
        }
        self.after_edit(
            pos,
            before,
            after,
            match result {
                KeyResult::Submit => true,
                _ => false,
            },
            view_state,
            event_emitter,
            Ghost(m),
        );
        proof {
            lemma_edit_kept(start, middle, self.nodes(), idx as int, origin, typed);
        }
    }

    /// Deletes a word of the focused input: the word before the cursor, or
    /// with `forward` the word behind it. Then a change of the value is
    /// announced, a displayed error message is dismissed, and the input is
    /// validated.
    pub fn handle_delete_word(
        &mut self,
        forward: bool,
        view_state: &mut ViewState,
        event_emitter: &mut EventEmitter,
    )
        requires
            old(self).well_formed(),
        ensures
            final(self).well_formed(),
            old(self).same_screen_but_focused(final(self)),
            final(event_emitter)@.subscriptions == old(event_emitter)@.subscriptions,
            old(self).spec_focused_pos() is Some ==> old(self).focused_field().word_deleted(
                &with_status_of(final(self).focused_field(), old(self).focused_field()),
                forward,
            ),
            final(self).model(final(view_state), final(event_emitter)) == (if old(
                self,
            ).spec_focused_pos() is Some {
                edited(
                    old(self).model(old(view_state), old(event_emitter)),
                    final(self).focused_field().failure(),
                    change_of(
                        old(self).focused_field().spec_value(),
                        final(self).focused_field().spec_value(),
                    ),
                    false,
                )
            } else {
                old(self).model(old(view_state), old(event_emitter))
            }),
    {
        let pos = match self.focused_pos {
            Some(pos) => pos,
            None => {
                return ;
            },
        };
        let ghost m = self.model(view_state, event_emitter);
        let ghost start = self.nodes();
        let idx = self.input_indices[pos];
        let ghost origin = self.focused_field();
        let mut before = String::new();
        let mut after = String::new();
        match &mut self.step.nodes[idx] {
            Node::Input(field) => {
                before = field.value();
                if forward {
                    field.delete_word_forward();
                } else {
                    field.delete_word();
                }
                after = field.value();
            },
            Node::Text(_) => {},
        }
        let ghost typed = self.nodes()[idx as int]->Input_0;
        let ghost middle = self.nodes();
        proof {
            assert(middle =~= start.update(idx as int, Node::Input(typed)));
            lemma_update_field(start, self.indices(), pos as int, typed);
            lemma_same_nodes(start);
            assert(self.fields() =~= m.fields.update(
                pos as int,
                FieldStatus { failure: typed.failure(), ..m.fields[pos as int] },
            ));
        }
        self.after_edit(pos, before, after, false, view_state, event_emitter, Ghost(m));
        proof {
            lemma_edit_kept(start, middle, self.nodes(), idx as int, origin, typed);
        }
    }
}

/// After an edit of the input at `at` and changes of status behind it, the
/// nodes are the same but for status and that input, and the input without
/// its new status is the edited input.
pub proof fn lemma_edit_kept(
    start: Seq<Node>,
    middle: Seq<Node>,
    last: Seq<Node>,
    at: int,
    origin: Field,
    typed: Field,
)
    requires
        0 <= at < start.len(),
        start[at] == Node::Input(origin),
        middle == start.update(at, Node::Input(typed)),
        same_but_status(middle, last),
        typed.spec_focused() == origin.spec_focused(),
        typed.raw_error() == origin.raw_error(),
    ensures
        same_but_input(start, last, at),
        with_status_of(last[at]->Input_0, origin) == typed,
        last[at]->Input_0.spec_value() == typed.spec_value(),
        last[at]->Input_0.failure() == typed.failure(),
{
    assert forall|i: int| 0 <= i < start.len() && i != at implies match #[trigger] start[i] {
        Node::Text(_) => last[i] == start[i],
        Node::Input(field) => last[i] is Input && field.same_but_status(&last[i]->Input_0),
    } by {
        assert(middle[i] == start[i]);
        assert(match middle[i] {
            Node::Text(_) => last[i] == middle[i],
            Node::Input(field) => last[i] is Input && field.same_but_status(&last[i]->Input_0),
        });
    }
    assert(middle[at] == Node::Input(typed));
    assert(match middle[at] {
        Node::Text(_) => last[at] == middle[at],
        Node::Input(field) => last[at] is Input && field.same_but_status(&last[at]->Input_0),
    });
    lemma_same_but_status(typed, last[at]->Input_0);
}

} // verus!
