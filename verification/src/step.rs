//! A screen as a plain list of nodes, with operations on its inputs by
//! their identity.

use crate::field::Field;
use crate::form_step::{input_place, lemma_input_place};
use crate::input::outcome_text;
use crate::node::Node;
use crate::text_input::{inserted, InputNode, TextInput};
use crate::view_state::same_text;
use vstd::prelude::*;

verus! {

/// A screen: nodes in order.
pub type Step = Vec<Node>;

/// What validation found for one input.
#[derive(Debug, PartialEq, Eq)]
pub struct ValidationError {
    pub id: String,
    pub message: String,
}

/// What a validation error holds.
pub struct ValidationErrorView {
    pub id: Seq<char>,
    pub message: Seq<char>,
}

impl View for ValidationError {
    type V = ValidationErrorView;

    open spec fn view(&self) -> ValidationErrorView {
        ValidationErrorView { id: self.id@, message: self.message@ }
    }
}

/// The validation errors of the inputs among the nodes, in order: one for
/// every input whose value fails its validation.
pub open spec fn errors_of(nodes: Seq<Node>) -> Seq<ValidationErrorView>
    decreases nodes.len(),
{
    if nodes.len() == 0 {
        Seq::empty()
    } else {
        let rest = errors_of(nodes.drop_last());
        match nodes.last() {
            Node::Input(field) => match field.failure() {
                Some(message) => rest.push(ValidationErrorView { id: field.spec_id(), message }),
                None => rest,
            },
            Node::Text(_) => rest,
        }
    }
}

/// Whether the nodes hold an input with the identity.
pub open spec fn has_input(nodes: Seq<Node>, id: Seq<char>) -> bool {
    input_place(nodes, id) < nodes.len()
}

/// The first input with the identity.
pub open spec fn input_of(nodes: Seq<Node>, id: Seq<char>) -> Field {
    nodes[input_place(nodes, id)]->Input_0
}

/// The nodes with the first input with the identity replaced.
pub open spec fn with_input(nodes: Seq<Node>, id: Seq<char>, field: Field) -> Seq<Node> {
    nodes.update(input_place(nodes, id), Node::Input(field))
}

/// The place of the first input with the identity.
fn place_of(nodes: &Vec<Node>, id: &str) -> (r: Option<usize>)
    ensures
        r is Some <==> has_input(nodes@, id@),
        r matches Some(i) ==> i == input_place(nodes@, id@) && i < nodes@.len()
            && nodes@[i as int] is Input && nodes@[i as int]->Input_0.spec_id() == id@,
{
    let mut i: usize = 0;
    proof {
        lemma_input_place(nodes@, id@);
        assert(nodes@.skip(0) =~= nodes@);
    }
    while i < nodes.len()
        invariant
            i <= nodes.len(),
            input_place(nodes@, id@) == i + input_place(nodes@.skip(i as int), id@),
        decreases nodes.len() - i,
    {
        proof {
            assert(nodes@.skip(i as int)[0] == nodes@[i as int]);
            assert(nodes@.skip(i as int).drop_first() =~= nodes@.skip(i + 1));
        }
        match &nodes[i] {
            Node::Input(field) => {
                if same_text(field.id(), id) {
                    return Some(i);
                }
            },
            Node::Text(_) => {},
        }
        i += 1;
    }
    None
}

/// Operations on the inputs of a screen by their identity.
pub trait StepExt {
    /// The nodes of the screen.
    spec fn nodes(&self) -> Seq<Node>;

    /// The node of the first input with the identity.
    fn find_by_id(&self, id: &str) -> (r: Option<&Node>)
        ensures
            r is Some <==> has_input(self.nodes(), id@),
            r matches Some(node) ==> *node == self.nodes()[input_place(self.nodes(), id@)],
    ;

    /// The node of the first input with the identity, for changing it.
    fn find_by_id_mut(&mut self, id: &str) -> (r: Option<&mut Node>)
        ensures
            r is Some <==> has_input(old(self).nodes(), id@),
            r matches Some(node) ==> *node == old(self).nodes()[input_place(
                old(self).nodes(),
                id@,
            )] && final(self).nodes() == old(self).nodes().update(
                input_place(old(self).nodes(), id@),
                *final(node),
            ),
            r is None ==> final(self).nodes() == old(self).nodes(),
    ;

    /// The value of the first input with the identity.
    fn get_value(&self, id: &str) -> (r: Option<String>)
        ensures
            r is Some <==> has_input(self.nodes(), id@),
            r matches Some(value) ==> value@ == input_of(self.nodes(), id@).spec_value(),
    ;

    /// Replaces the value of the first input with the identity, where that
    /// is a text input. Answers whether it did.
    fn set_value(&mut self, id: &str, value: &str) -> (r: bool)
        ensures
            r == (has_input(old(self).nodes(), id@) && input_of(old(self).nodes(), id@) is Text),
            !r ==> final(self).nodes() == old(self).nodes(),
            r ==> final(self).nodes() == with_input(
                old(self).nodes(),
                id@,
                input_of(final(self).nodes(), id@),
            ) && (input_of(final(self).nodes(), id@) matches Field::Text(after) && input_of(
                old(self).nodes(),
                id@,
            ) matches Field::Text(before) && before.same_but_text(&after) && after.node.value@
                == value@ && after.node.cursor_pos == before.node.cursor_pos),
    ;

    /// Puts text in at the cursor of the first input with the identity,
    /// where that is a text input. Answers whether it did.
    fn insert_text(&mut self, id: &str, text: &str) -> (r: bool)
        ensures
            r == (has_input(old(self).nodes(), id@) && input_of(old(self).nodes(), id@) is Text),
            !r ==> final(self).nodes() == old(self).nodes(),
            r ==> final(self).nodes() == with_input(
                old(self).nodes(),
                id@,
                input_of(final(self).nodes(), id@),
            ) && (input_of(final(self).nodes(), id@) matches Field::Text(after) && input_of(
                old(self).nodes(),
                id@,
            ) matches Field::Text(before) && before.same_but_text(&after) && after.node.value@
                == inserted(before.node.value@, before.node.cursor(), text@)
                && after.node.cursor_pos == before.node.cursor() + text@.len()),
    ;

    /// Empties the first input with the identity, where that is a text
    /// input. Answers whether it did.
    fn clear_input(&mut self, id: &str) -> (r: bool)
        ensures
            r == (has_input(old(self).nodes(), id@) && input_of(old(self).nodes(), id@) is Text),
            !r ==> final(self).nodes() == old(self).nodes(),
            r ==> final(self).nodes() == with_input(
                old(self).nodes(),
                id@,
                input_of(final(self).nodes(), id@),
            ) && (input_of(final(self).nodes(), id@) matches Field::Text(after) && input_of(
                old(self).nodes(),
                id@,
            ) matches Field::Text(before) && before.same_but_text(&after) && after.node.value@
                == Seq::<char>::empty() && after.node.cursor_pos == 0),
    ;

    /// Validates every input: one error for each input whose value fails,
    /// in the order of the nodes.
    fn validate_all(&self) -> (r: Vec<ValidationError>)
        ensures
            r@.map_values(|e: ValidationError| e@) == errors_of(self.nodes()),
    ;

    /// Validates the first input with the identity; without such an input
    /// the answer is the message `Input not found`.
    fn validate_input(&self, id: &str) -> (r: Result<(), String>)
        ensures
            outcome_text(r) == if has_input(self.nodes(), id@) {
                input_of(self.nodes(), id@).failure()
            } else {
                Some("Input not found"@)
            },
    ;

    /// Sets the error of the first input with the identity. Answers whether
    /// there is such an input.
    fn set_error(&mut self, id: &str, error: String) -> (r: bool)
        ensures
            r == has_input(old(self).nodes(), id@),
            !r ==> final(self).nodes() == old(self).nodes(),
            r ==> final(self).nodes() == with_input(
                old(self).nodes(),
                id@,
                input_of(old(self).nodes(), id@).with_error(Some(error)),
            ),
    ;

    /// Empties the error slot of the first input with the identity. Answers
    /// whether there is such an input.
    fn clear_error(&mut self, id: &str) -> (r: bool)
        ensures
            r == has_input(old(self).nodes(), id@),
            !r ==> final(self).nodes() == old(self).nodes(),
            r ==> final(self).nodes() == with_input(
                old(self).nodes(),
                id@,
                input_of(old(self).nodes(), id@).with_error(None),
            ),
    ;

    /// The value of every input with the identity of the input, in the
    /// order of the nodes.
    fn values(&self) -> (r: Vec<(String, String)>)
        ensures
            crate::form_step::entries(r@) == crate::form_step::values_of(self.nodes()),
    ;
}

impl StepExt for Vec<Node> {
    open spec fn nodes(&self) -> Seq<Node> {
        self@
    }

    fn find_by_id(&self, id: &str) -> (r: Option<&Node>) {
        match place_of(self, id) {
            Some(i) => Some(&self[i]),
            None => None,
        }
    }

    fn find_by_id_mut(&mut self, id: &str) -> (r: Option<&mut Node>) {
        match place_of(self, id) {
            Some(i) => Some(&mut self[i]),
            None => None,
        }
    }

    fn get_value(&self, id: &str) -> (r: Option<String>) {
        match place_of(self, id) {
            Some(i) => match &self[i] {
                Node::Input(field) => Some(field.value()),
                Node::Text(_) => None,
            },
            None => None,
        }
    }

    fn set_value(&mut self, id: &str, value: &str) -> (r: bool) {
        match place_of(self, id) {
            Some(i) => {
                let changed = match &mut self[i] {
                    Node::Input(field) => match field {
                        Field::Text(input) => {
                            input.node.value = String::from_str(value);
                            true
                        },
                        _ => false,
                    },
                    Node::Text(_) => false,
                };
                proof {
                    lemma_same_place(old(self)@, self@, id@);
                    assert(self@ =~= old(self)@.update(i as int, self@[i as int]));
                }
                changed
            },
            None => false,
        }
    }

    fn insert_text(&mut self, id: &str, text: &str) -> (r: bool) {
        match place_of(self, id) {
            Some(i) => {
                let changed = match &mut self[i] {
                    Node::Input(field) => match field {
                        Field::Text(input) => {
                            input.node.insert_text(text);
                            true
                        },
                        _ => false,
                    },
                    Node::Text(_) => false,
                };
                proof {
                    lemma_same_place(old(self)@, self@, id@);
                    assert(self@ =~= old(self)@.update(i as int, self@[i as int]));
                }
                changed
            },
            None => false,
        }
    }

    fn clear_input(&mut self, id: &str) -> (r: bool) {
        match place_of(self, id) {
            Some(i) => {
                let changed = match &mut self[i] {
                    Node::Input(field) => match field {
                        Field::Text(input) => {
                            input.node.clear();
                            true
                        },
                        _ => false,
                    },
                    Node::Text(_) => false,
                };
                proof {
                    lemma_same_place(old(self)@, self@, id@);
                    assert(self@ =~= old(self)@.update(i as int, self@[i as int]));
                }
                changed
            },
            None => false,
        }
    }

    fn validate_all(&self) -> (r: Vec<ValidationError>) {
        let mut found: Vec<ValidationError> = Vec::new();
        let mut i: usize = 0;
        let ghost view = |e: ValidationError| e@;
        proof {
            assert(self@.take(0) =~= Seq::<Node>::empty());
            assert(found@.map_values(view) =~= Seq::<ValidationErrorView>::empty());
        }
        while i < self.len()
            invariant
                i <= self.len(),
                view == |e: ValidationError| e@,
                found@.map_values(view) == errors_of(self@.take(i as int)),
            decreases self.len() - i,
        {
            proof {
                assert(self@.take(i + 1).drop_last() =~= self@.take(i as int));
                assert(self@.take(i + 1).last() == self@[i as int]);
            }
            match &self[i] {
                Node::Input(field) => {
                    match field.validate() {
                        Ok(()) => {},
                        Err(message) => {
                            let ghost before = found@.map_values(view);
                            let error = ValidationError { id: String::from_str(field.id()), message };
                            found.push(error);
                            assert(found@.map_values(view) =~= before.push(error@));
                        },
                    }
                },
                Node::Text(_) => {},
            }
            i += 1;
        }
        assert(self@.take(i as int) =~= self@);
        found
    }

    fn validate_input(&self, id: &str) -> (r: Result<(), String>) {
        match place_of(self, id) {
            Some(i) => match &self[i] {
                Node::Input(field) => field.validate(),
                Node::Text(_) => Ok(()),
            },
            None => Err(String::from_str("Input not found")),
        }
    }

    fn set_error(&mut self, id: &str, error: String) -> (r: bool) {
        match place_of(self, id) {
            Some(i) => {
                match &mut self[i] {
                    Node::Input(field) => {
                        field.set_error(Some(error));
                    },
                    Node::Text(_) => {},
                }
                assert(self@ =~= with_input(
                    old(self)@,
                    id@,
                    input_of(old(self)@, id@).with_error(Some(error)),
                ));
                true
            },
            None => false,
        }
    }

    fn clear_error(&mut self, id: &str) -> (r: bool) {
        match place_of(self, id) {
            Some(i) => {
                match &mut self[i] {
                    Node::Input(field) => {
                        field.set_error(None);
                    },
                    Node::Text(_) => {},
                }
                assert(self@ =~= with_input(
                    old(self)@,
                    id@,
                    input_of(old(self)@, id@).with_error(None),
                ));
                true
            },
            None => false,
        }
    }

    fn values(&self) -> (r: Vec<(String, String)>) {
        let mut found: Vec<(String, String)> = Vec::new();
        let mut i: usize = 0;
        proof {
            assert(self@.take(0) =~= Seq::<Node>::empty());
            assert(crate::form_step::entries(found@) =~= Seq::<crate::form_step::Entry>::empty());
        }
        while i < self.len()
            invariant
                i <= self.len(),
                crate::form_step::entries(found@) == crate::form_step::values_of(
                    self@.take(i as int),
                ),
            decreases self.len() - i,
        {
            proof {
                assert(self@.take(i + 1).drop_last() =~= self@.take(i as int));
                assert(self@.take(i + 1).last() == self@[i as int]);
            }
            match &self[i] {
                Node::Input(field) => {
                    let ghost before = crate::form_step::entries(found@);
                    let id = String::from_str(field.id());
                    let value = field.value();
                    found.push((id, value));
                    assert(crate::form_step::entries(found@) =~= before.push(
                        crate::form_step::Entry { id: id@, text: value@ },
                    ));
                },
                Node::Text(_) => {},
            }
            i += 1;
        }
        assert(self@.take(i as int) =~= self@);
        found
    }
}

/// The first input with an identity stays in its place when nothing but
/// the node there changes and that node stays an input with the identity.
pub proof fn lemma_same_place(before: Seq<Node>, after: Seq<Node>, id: Seq<char>)
    requires
        after.len() == before.len(),
        has_input(before, id),
        forall|i: int|
            0 <= i < before.len() && i != input_place(before, id) ==> after[i] == before[i],
        after[input_place(before, id)] is Input,
        after[input_place(before, id)]->Input_0.spec_id() == id,
    ensures
        input_place(after, id) == input_place(before, id),
    decreases before.len(),
{
    lemma_input_place(before, id);
    if !(before[0] is Input && before[0]->Input_0.spec_id() == id) {
        assert(after[0] == before[0]);
        let b = before.drop_first();
        let a = after.drop_first();
        assert forall|i: int| 0 <= i < b.len() && i != input_place(b, id) implies a[i] == b[i] by {
            assert(a[i] == after[i + 1]);
            assert(b[i] == before[i + 1]);
        }
        assert(a[input_place(b, id)] == after[input_place(before, id)]);
        lemma_same_place(b, a, id);
    }
}

} // verus!
