//! One screen of a form: a prompt, a hint and the nodes in order.

use crate::field::Field;
use crate::node::Node;
use crate::drawable::{Display, Wrap};
use crate::layout::{RenderUnit, UnitView};
use crate::node::{rendered, styled};
use crate::span::Span;
use crate::style::StyleView;
use crate::theme::Theme;
use crate::view_state::{same_text, ErrorDisplay, ViewState};
use vstd::prelude::*;

verus! {

/// One screen of a form.
#[derive(Debug)]
pub struct FormStep {
    pub prompt: String,
    pub hint: Option<String>,
    pub nodes: Vec<Node>,
}

/// An identity with a text that belongs to it: a value or a message.
pub struct Entry {
    pub id: Seq<char>,
    pub text: Seq<char>,
}

/// The views of pairs of identity and text.
pub open spec fn entries(pairs: Seq<(String, String)>) -> Seq<Entry> {
    pairs.map_values(|p: (String, String)| Entry { id: p.0@, text: p.1@ })
}

/// Where the first input with the identity `id` stands among the nodes, or
/// the number of nodes where there is none.
pub open spec fn input_place(nodes: Seq<Node>, id: Seq<char>) -> int
    decreases nodes.len(),
{
    if nodes.len() == 0 {
        0
    } else if nodes[0] is Input && nodes[0]->Input_0.spec_id() == id {
        0
    } else {
        1 + input_place(nodes.drop_first(), id)
    }
}

/// The failures of the inputs among the nodes, in order: identity and
/// message of every input whose value fails its validation.
pub open spec fn failures(nodes: Seq<Node>) -> Seq<Entry>
    decreases nodes.len(),
{
    if nodes.len() == 0 {
        Seq::empty()
    } else {
        let rest = failures(nodes.drop_last());
        match nodes.last() {
            Node::Input(field) => match field.failure() {
                Some(message) => rest.push(Entry { id: field.spec_id(), text: message }),
                None => rest,
            },
            Node::Text(_) => rest,
        }
    }
}

/// The values of the inputs among the nodes, in order, each with the
/// identity of its input.
pub open spec fn values_of(nodes: Seq<Node>) -> Seq<Entry>
    decreases nodes.len(),
{
    if nodes.len() == 0 {
        Seq::empty()
    } else {
        let rest = values_of(nodes.drop_last());
        match nodes.last() {
            Node::Input(field) => rest.push(
                Entry { id: field.spec_id(), text: field.spec_value() },
            ),
            Node::Text(_) => rest,
        }
    }
}

/// Whether every input among the nodes is in order.
pub open spec fn inputs_well_formed(nodes: Seq<Node>) -> bool {
    forall|i: int|
        0 <= i < nodes.len() && (#[trigger] nodes[i]) is Input ==> nodes[i]->Input_0.well_formed()
}

/// The place of the first input with an identity is within the nodes or
/// just behind them; where it is within, the node there is an input with
/// that identity, and no input before it has it.
pub proof fn lemma_input_place(nodes: Seq<Node>, id: Seq<char>)
    ensures
        0 <= input_place(nodes, id) <= nodes.len(),
        input_place(nodes, id) < nodes.len() ==> nodes[input_place(nodes, id)] is Input
            && nodes[input_place(nodes, id)]->Input_0.spec_id() == id,
        forall|i: int|
            0 <= i < input_place(nodes, id) ==> !((#[trigger] nodes[i]) is Input
                && nodes[i]->Input_0.spec_id() == id),
    decreases nodes.len(),
{
    if nodes.len() > 0 && !(nodes[0] is Input && nodes[0]->Input_0.spec_id() == id) {
        let rest = nodes.drop_first();
        lemma_input_place(rest, id);
        assert forall|i: int| 0 <= i < input_place(nodes, id) implies !((#[trigger] nodes[i]) is Input
            && nodes[i]->Input_0.spec_id() == id) by {
            if i > 0 {
                assert(rest[i - 1] == nodes[i]);
            }
        }
        if input_place(nodes, id) < nodes.len() {
            assert(rest[input_place(rest, id)] == nodes[input_place(nodes, id)]);
        }
    }
}

impl FormStep {
    /// A screen with the given prompt and nodes, without a hint.
    pub fn new(prompt: &str, nodes: Vec<Node>) -> (r: Self)
        ensures
            r.prompt@ == prompt@,
            r.hint is None,
            r.nodes == nodes,
    {
        FormStep { prompt: String::from_str(prompt), hint: None, nodes }
    }

    /// Whether every input of the screen is in order.
    pub fn is_well_formed(&self) -> (r: bool)
        ensures
            r == inputs_well_formed(self.nodes@),
    {
        let mut i: usize = 0;
        while i < self.nodes.len()
            invariant
                i <= self.nodes.len(),
                forall|j: int|
                    0 <= j < i && (#[trigger] self.nodes@[j]) is Input
                        ==> self.nodes@[j]->Input_0.well_formed(),
            decreases self.nodes.len() - i,
        {
            match &self.nodes[i] {
                Node::Input(field) => {
                    if !field.is_well_formed() {
                        return false;
                    }
                },
                Node::Text(_) => {},
            }
            i += 1;
        }
        true
    }

    /// Where the first input with the identity stands among the nodes.
    pub fn find_input_index(&self, id: &str) -> (r: Option<usize>)
        ensures
            r is Some <==> input_place(self.nodes@, id@) < self.nodes@.len(),
            r matches Some(i) ==> i == input_place(self.nodes@, id@),
    {
        let mut i: usize = 0;
        proof {
            lemma_input_place(self.nodes@, id@);
            assert(self.nodes@.skip(0) =~= self.nodes@);
        }
        while i < self.nodes.len()
            invariant
                i <= self.nodes.len(),
                input_place(self.nodes@, id@) == i + input_place(self.nodes@.skip(i as int), id@),
            decreases self.nodes.len() - i,
        {
            proof {
                assert(self.nodes@.skip(i as int)[0] == self.nodes@[i as int]);
                assert(self.nodes@.skip(i as int).drop_first() =~= self.nodes@.skip(i + 1));
            }
            match &self.nodes[i] {
                Node::Input(field) => {
                    if same_text(field.id(), id) {
                        return Some(i);
                    }
                },
                Node::Text(_) => {},
            }
            i += 1;
        }
        None
    }

    /// The first input with the identity.
    pub fn find_input(&self, id: &str) -> (r: Option<&Field>)
        ensures
            r is Some <==> input_place(self.nodes@, id@) < self.nodes@.len(),
            r matches Some(field) ==> *field == self.nodes@[input_place(
                self.nodes@,
                id@,
            )]->Input_0,
    {
        proof {
            lemma_input_place(self.nodes@, id@);
        }
        let found = self.find_input_index(id);
        match found {
            Some(i) => {
                match &self.nodes[i] {
                    Node::Input(field) => Some(field),
                    Node::Text(_) => None,
                }
            },
            None => None,
        }
    }

    /// The first input with the identity, for changing it.
    pub fn find_input_mut(&mut self, id: &str) -> (r: Option<&mut Field>)
        ensures
            r is Some <==> input_place(old(self).nodes@, id@) < old(self).nodes@.len(),
            r matches Some(field) ==> *field == old(self).nodes@[input_place(
                old(self).nodes@,
                id@,
            )]->Input_0 && final(self).nodes@ == old(self).nodes@.update(
                input_place(old(self).nodes@, id@),
                Node::Input(*final(field)),
            ),
            r is None ==> final(self).nodes@ == old(self).nodes@,
            final(self).prompt == old(self).prompt,
            final(self).hint == old(self).hint,
    {
        proof {
            lemma_input_place(self.nodes@, id@);
        }
        match self.find_input_index(id) {
            Some(i) => self.nodes[i].as_input_mut(),
            None => None,
        }
    }

    /// Validates every input: identity and message of each input whose
    /// value fails, in the order of the nodes.
    pub fn validate_all(&self) -> (r: Vec<(String, String)>)
        ensures
            entries(r@) == failures(self.nodes@),
    {
        let mut found: Vec<(String, String)> = Vec::new();
        let mut i: usize = 0;
        proof {
            assert(self.nodes@.take(0) =~= Seq::<Node>::empty());
            assert(entries(found@) =~= Seq::<Entry>::empty());
        }
        while i < self.nodes.len()
            invariant
                i <= self.nodes.len(),
                entries(found@) == failures(self.nodes@.take(i as int)),
            decreases self.nodes.len() - i,
        {
            proof {
                assert(self.nodes@.take(i + 1).drop_last() =~= self.nodes@.take(i as int));
                assert(self.nodes@.take(i + 1).last() == self.nodes@[i as int]);
            }
            match &self.nodes[i] {
                Node::Input(field) => {
                    match field.validate() {
                        Ok(()) => {},
                        Err(message) => {
                            let ghost before = entries(found@);
                            let id = String::from_str(field.id());
                            found.push((id, message));
                            assert(entries(found@) =~= before.push(
                                Entry { id: id@, text: message@ },
                            ));
                        },
                    }
                },
                Node::Text(_) => {},
            }
            i += 1;
        }
        assert(self.nodes@.take(i as int) =~= self.nodes@);
        found
    }

    /// The value of every input with the identity of the input, in the
    /// order of the nodes.
    pub fn values(&self) -> (r: Vec<(String, String)>)
        ensures
            entries(r@) == values_of(self.nodes@),
    {
        let mut found: Vec<(String, String)> = Vec::new();
        let mut i: usize = 0;
        proof {
            assert(self.nodes@.take(0) =~= Seq::<Node>::empty());
            assert(entries(found@) =~= Seq::<Entry>::empty());
        }
        while i < self.nodes.len()
            invariant
                i <= self.nodes.len(),
                entries(found@) == values_of(self.nodes@.take(i as int)),
            decreases self.nodes.len() - i,
        {
            proof {
                assert(self.nodes@.take(i + 1).drop_last() =~= self.nodes@.take(i as int));
                assert(self.nodes@.take(i + 1).last() == self.nodes@[i as int]);
            }
            match &self.nodes[i] {
                Node::Input(field) => {
                    let ghost before = entries(found@);
                    let id = String::from_str(field.id());
                    let value = field.value();
                    found.push((id, value));
                    assert(entries(found@) =~= before.push(Entry { id: id@, text: value@ }));
                },
                Node::Text(_) => {},
            }
            i += 1;
        }
        assert(self.nodes@.take(i as int) =~= self.nodes@);
        found
    }
}

/// Whether the error message of a node is displayed in place of its
/// content.
pub open spec fn shows_inline(node: &Node, displays: Map<Seq<char>, ErrorDisplay>) -> bool {
    match node {
        Node::Input(field) => displays.dom().contains(field.spec_id()) && displays[field.spec_id()]
            == ErrorDisplay::InlineMessage,
        Node::Text(_) => false,
    }
}

/// The spans of the render unit of a node.
pub open spec fn node_unit_spans(
    node: &Node,
    displays: Map<Seq<char>, ErrorDisplay>,
    error_style: StyleView,
) -> Seq<crate::span::SpanView> {
    rendered(node, shows_inline(node, displays), error_style)
}

/// A line of text as a render unit: one span in the given style, on a line
/// of its own.
pub open spec fn text_unit(text: Seq<char>, style: StyleView) -> UnitView {
    UnitView { spans: seq![styled(text, style)], display: Display::Block, cursor_offset: None }
}

/// The render unit of a node: its spans on a line of its own, with the
/// cursor where the node is the focused input.
pub open spec fn node_unit(
    node: &Node,
    displays: Map<Seq<char>, ErrorDisplay>,
    error_style: StyleView,
) -> UnitView {
    UnitView {
        spans: node_unit_spans(node, displays, error_style),
        display: Display::Block,
        cursor_offset: node.spec_cursor_offset(),
    }
}

impl FormStep {
    /// The render units of the screen: the prompt, the nodes in order, and
    /// the hint where there is one.
    pub open spec fn spec_units(
        &self,
        displays: Map<Seq<char>, ErrorDisplay>,
        prompt_style: StyleView,
        hint_style: StyleView,
        error_style: StyleView,
    ) -> Seq<UnitView> {
        seq![text_unit(self.prompt@, prompt_style)] + Seq::new(
            self.nodes@.len(),
            |i: int| node_unit(&self.nodes@[i], displays, error_style),
        ) + (match self.hint {
            Some(hint) => seq![text_unit(hint@, hint_style)],
            None => Seq::empty(),
        })
    }

    /// The number of render units of the screen: the prompt, the nodes, and
    /// the hint where there is one.
    pub open spec fn unit_count(&self) -> nat {
        (1 + self.nodes@.len() + if self.hint is Some {
            1nat
        } else {
            0nat
        }) as nat
    }

    /// The render units of the screen, each on a line of its own: the
    /// prompt in its style, the nodes in order, and the hint in its style
    /// where there is one. The unit of the focused input reports the
    /// cursor.
    pub fn units(&self, view_state: &ViewState, theme: &Theme) -> (r: Vec<RenderUnit>)
        ensures
            r@.len() == self.unit_count(),
            crate::layout::unit_views(r@) == self.spec_units(
                view_state@,
                theme.prompt@,
                theme.hint@,
                theme.error@,
            ),
    {
        let mut units: Vec<RenderUnit> = Vec::new();
        let mut head: Vec<Span> = Vec::new();
        head.push(Span::new(self.prompt.as_str()).with_style(theme.prompt.clone()));
        let unit = RenderUnit::new(head, Display::Block);
        assert(unit@.spans =~= seq![styled(self.prompt@, theme.prompt@)]);
        units.push(unit);
        let mut i: usize = 0;
        while i < self.nodes.len()
            invariant
                i <= self.nodes.len(),
                units@.len() == i + 1,
                units@[0]@ == text_unit(self.prompt@, theme.prompt@),
                forall|k: int|
                    0 <= k < i ==> (#[trigger] units@[k + 1])@.spans == node_unit_spans(
                        &self.nodes@[k],
                        view_state@,
                        theme.error@,
                    ) && units@[k + 1]@.display == Display::Block && units@[k + 1]@.cursor_offset
                        == self.nodes@[k].spec_cursor_offset(),
            decreases self.nodes.len() - i,
        {
            let node = &self.nodes[i];
            let inline = match node {
                Node::Input(field) => view_state.shows_inline(field.id()),
                Node::Text(_) => false,
            };
            let spans = node.render(inline, theme);
            let unit = match node.cursor_offset() {
                Some(offset) => RenderUnit::new(spans, Display::Block).with_cursor(offset),
                None => RenderUnit::new(spans, Display::Block),
            };
            assert(unit@.spans == crate::span::span_views(spans@));
            units.push(unit);
            i += 1;
        }
        match &self.hint {
            Some(hint) => {
                let mut tail: Vec<Span> = Vec::new();
                tail.push(Span::new(hint.as_str()).with_style(theme.hint.clone()));
                let unit = RenderUnit::new(tail, Display::Block);
                assert(unit@.spans =~= seq![styled(hint@, theme.hint@)]);
                units.push(unit);
            },
            None => {},
        }
        proof {
            {
                let expected = self.spec_units(
                    view_state@,
                    theme.prompt@,
                    theme.hint@,
                    theme.error@,
                );
                assert(crate::layout::unit_views(units@).len() == expected.len());
                assert forall|k: int| 0 <= k < expected.len() implies crate::layout::unit_views(
                    units@,
                )[k] == expected[k] by {
                    if 0 < k && k <= self.nodes@.len() {
                        assert(units@[(k - 1) + 1]@.spans == node_unit_spans(
                            &self.nodes@[k - 1],
                            view_state@,
                            theme.error@,
                        ));
                    }
                }
                assert(crate::layout::unit_views(units@) =~= expected);
            }
        }
        units
    }
}

} // verus!
