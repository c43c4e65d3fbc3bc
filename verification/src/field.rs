//! The closed set of input widgets, with the operations that every input
//! offers.

use crate::date_input::{date_after_key, date_key_result, date_spans, DateInput, DateInputNode};
use crate::input::{error_text, outcome_text, InputBase, KeyCode, KeyModifiers, KeyResult};
use crate::ip_input::{ip_after_key, ip_key_result, ip_shown, ip_spans, IpInput};
use crate::span::{Span, SpanView};
use crate::text_input::{
    cursor_after_key, padded, text_after_key, text_key_result, InputNode, TextInput,
};
use crate::validators::first_failure;
use vstd::prelude::*;

verus! {

/// An input widget of one of the three kinds.
#[derive(Debug)]
pub enum Field {
    Text(TextInput),
    Date(DateInput),
    Ip(IpInput),
}

impl Field {
    /// The identity of the input.
    pub open spec fn spec_id(&self) -> Seq<char> {
        match self {
            Field::Text(input) => input.node.id@,
            Field::Date(input) => input.node.id@,
            Field::Ip(input) => input.base.id@,
        }
    }

    /// The label of the input.
    pub open spec fn spec_label(&self) -> Seq<char> {
        match self {
            Field::Text(input) => input.node.label@,
            Field::Date(input) => input.node.label@,
            Field::Ip(input) => input.base.label@,
        }
    }

    /// The value of the input as a string.
    pub open spec fn spec_value(&self) -> Seq<char> {
        match self {
            Field::Text(input) => input.node.value@,
            Field::Date(input) => input.node.spec_value(),
            Field::Ip(input) => ip_shown(input.content@),
        }
    }

    /// Whether the input has the focus.
    pub open spec fn spec_focused(&self) -> bool {
        match self {
            Field::Text(input) => input.focused,
            Field::Date(input) => input.focused,
            Field::Ip(input) => input.base.focused,
        }
    }

    /// The message in the error slot of the input.
    pub open spec fn spec_error(&self) -> Option<Seq<char>> {
        match self {
            Field::Text(input) => error_text(input.node.error),
            Field::Date(input) => error_text(input.node.error),
            Field::Ip(input) => error_text(input.base.error),
        }
    }

    /// The least width of the content of the input.
    pub open spec fn spec_min_width(&self) -> nat {
        match self {
            Field::Text(input) => input.node.min_width as nat,
            Field::Date(input) => input.node.min_width as nat,
            Field::Ip(input) => input.base.min_width as nat,
        }
    }

    /// What validation finds for the value as it is: the message of the
    /// first rule that fails, or nothing.
    pub open spec fn failure(&self) -> Option<Seq<char>> {
        match self {
            Field::Text(input) => first_failure(input.node.validators@, input.node.value@),
            Field::Date(input) => input.node.failure(),
            Field::Ip(input) => first_failure(input.base.validators@, ip_shown(input.content@)),
        }
    }

    /// The invariant of the widget inside.
    pub open spec fn well_formed(&self) -> bool {
        match self {
            Field::Text(input) => true,
            Field::Date(input) => input.node.well_formed(),
            Field::Ip(input) => input.content.well_formed(),
        }
    }

    /// The input with the focus flag set as given.
    pub open spec fn with_focus(self, focused: bool) -> Field {
        match self {
            Field::Text(input) => Field::Text(TextInput { focused, ..input }),
            Field::Date(input) => Field::Date(DateInput { focused, ..input }),
            Field::Ip(input) => Field::Ip(
                IpInput { base: InputBase { focused, ..input.base }, ..input },
            ),
        }
    }

    /// The input with the error slot set as given.
    pub open spec fn with_error(self, error: Option<String>) -> Field {
        match self {
            Field::Text(input) => Field::Text(
                TextInput { node: InputNode { error, ..input.node }, ..input },
            ),
            Field::Date(input) => Field::Date(
                DateInput { node: DateInputNode { error, ..input.node }, ..input },
            ),
            Field::Ip(input) => Field::Ip(
                IpInput { base: InputBase { error, ..input.base }, ..input },
            ),
        }
    }

    /// The error slot of the input.
    pub open spec fn raw_error(&self) -> Option<String> {
        match self {
            Field::Text(input) => input.node.error,
            Field::Date(input) => input.node.error,
            Field::Ip(input) => input.base.error,
        }
    }

    /// Whether `other` is this input but for the focus flag and the error
    /// slot.
    pub open spec fn same_but_status(&self, other: &Field) -> bool {
        *other == self.with_focus(other.spec_focused()).with_error(other.raw_error())
    }

    /// What the input answers to a key.
    pub open spec fn key_result(&self, code: KeyCode, modifiers: KeyModifiers) -> KeyResult {
        match self {
            Field::Text(input) => text_key_result(code, modifiers),
            Field::Date(input) => date_key_result(&input.node, code),
            Field::Ip(input) => ip_key_result(code, modifiers),
        }
    }

    /// Whether `after` is this input after a key: identity, label, focus,
    /// error and validators stay, and the content changes as the kind of
    /// the input says.
    pub open spec fn key_applied(&self, after: &Field, code: KeyCode, modifiers: KeyModifiers) -> bool {
        match (self, after) {
            (Field::Text(old), Field::Text(new)) => {
                &&& old.same_but_text(new)
                &&& new.node.value@ == text_after_key(
                    old.node.value@,
                    old.node.cursor(),
                    code,
                    modifiers,
                )
                &&& text_key_result(code, modifiers) == KeyResult::Handled ==> new.node.cursor_pos
                    == cursor_after_key(old.node.value@, old.node.cursor(), code, modifiers)
                &&& text_key_result(code, modifiers) != KeyResult::Handled ==> new == old
            },
            (Field::Date(old), Field::Date(new)) => {
                &&& old.same_frame(new)
                &&& if date_key_result(&old.node, code) == KeyResult::Handled {
                    date_after_key(&old.node, &new.node, code)
                } else {
                    new.node.segments@ == old.node.segments@ && new.node.focused_segment
                        == old.node.focused_segment
                }
            },
            (Field::Ip(old), Field::Ip(new)) => {
                &&& old.same_base(new)
                &&& new.content@ == ip_after_key(old.content@, code, modifiers)
            },
            _ => false,
        }
    }

    /// Whether the widget inside is in order.
    pub fn is_well_formed(&self) -> (r: bool)
        ensures
            r == self.well_formed(),
    {
        match self {
            Field::Text(_) => true,
            Field::Date(input) => input.node.is_well_formed(),
            Field::Ip(input) => input.content.is_well_formed(),
        }
    }

    /// The identity of the input.
    pub fn id(&self) -> (r: &str)
        ensures
            r@ == self.spec_id(),
    {
        match self {
            Field::Text(input) => input.id(),
            Field::Date(input) => input.id(),
            Field::Ip(input) => input.id(),
        }
    }

    /// The label of the input.
    pub fn label(&self) -> (r: &str)
        ensures
            r@ == self.spec_label(),
    {
        match self {
            Field::Text(input) => input.label(),
            Field::Date(input) => input.label(),
            Field::Ip(input) => input.label(),
        }
    }

    /// The value of the input as a string.
    pub fn value(&self) -> (r: String)
        ensures
            r@ == self.spec_value(),
    {
        match self {
            Field::Text(input) => input.value(),
            Field::Date(input) => input.value(),
            Field::Ip(input) => input.value(),
        }
    }

    /// Whether the input has the focus.
    pub fn is_focused(&self) -> (r: bool)
        ensures
            r == self.spec_focused(),
    {
        match self {
            Field::Text(input) => input.is_focused(),
            Field::Date(input) => input.is_focused(),
            Field::Ip(input) => input.is_focused(),
        }
    }

    /// Sets the focus flag.
    pub fn set_focused(&mut self, focused: bool)
        ensures
            *final(self) == old(self).with_focus(focused),
    {
        match self {
            Field::Text(input) => input.set_focused(focused),
            Field::Date(input) => input.set_focused(focused),
            Field::Ip(input) => input.set_focused(focused),
        }
    }

    /// The message in the error slot.
    pub fn error(&self) -> (r: Option<&str>)
        ensures
            r is Some == self.spec_error() is Some,
            r matches Some(m) ==> Some(m@) == self.spec_error(),
    {
        match self {
            Field::Text(input) => input.error(),
            Field::Date(input) => input.error(),
            Field::Ip(input) => input.error(),
        }
    }

    /// Sets the error slot.
    pub fn set_error(&mut self, error: Option<String>)
        ensures
            *final(self) == old(self).with_error(error),
    {
        match self {
            Field::Text(input) => input.set_error(error),
            Field::Date(input) => input.set_error(error),
            Field::Ip(input) => input.set_error(error),
        }
    }

    /// The least width of the content.
    pub fn min_width(&self) -> (r: usize)
        ensures
            r == self.spec_min_width(),
    {
        match self {
            Field::Text(input) => input.min_width(),
            Field::Date(input) => input.min_width(),
            Field::Ip(input) => input.min_width(),
        }
    }

    /// Runs the validation of the input on its value.
    pub fn validate(&self) -> (r: Result<(), String>)
        ensures
            outcome_text(r) == self.failure(),
    {
        match self {
            Field::Text(input) => input.validate(),
            Field::Date(input) => input.validate(),
            Field::Ip(input) => input.validate(),
        }
    }

    /// Applies a key to the input.
    pub fn handle_key(&mut self, code: KeyCode, modifiers: KeyModifiers) -> (r: KeyResult)
        ensures
            r == old(self).key_result(code, modifiers),
            old(self).key_applied(final(self), code, modifiers),
            old(self).well_formed() ==> final(self).well_formed(),
            final(self).spec_id() == old(self).spec_id(),
            final(self).spec_focused() == old(self).spec_focused(),
            final(self).raw_error() == old(self).raw_error(),
    {
        match self {
            Field::Text(input) => input.handle_key(code, modifiers),
            Field::Date(input) => input.handle_key(code, modifiers),
            Field::Ip(input) => input.handle_key(code, modifiers),
        }
    }

    /// Whether `after` is this input after the word before the cursor is
    /// deleted, or with `forward` the word behind it. A text input loses the
    /// white space next to the cursor and the run without white space
    /// beyond it; an address input has its edited octet set to zero, or
    /// with `forward` the octets behind it; a date input has no words and
    /// stays as it is.
    pub open spec fn word_deleted(&self, after: &Field, forward: bool) -> bool {
        match (self, after) {
            (Field::Text(old), Field::Text(new)) => {
                let value = old.node.value@;
                let cursor = old.node.cursor();
                &&& old.same_but_text(new)
                &&& new.node.value@ == if forward {
                    crate::text_input::cut(value, cursor, crate::text_input::word_end(value, cursor))
                } else {
                    crate::text_input::cut(
                        value,
                        crate::text_input::word_start(value, cursor),
                        cursor,
                    )
                }
                &&& new.node.cursor_pos == if forward {
                    cursor
                } else {
                    crate::text_input::word_start(value, cursor)
                }
            },
            (Field::Date(old), Field::Date(new)) => new == old,
            (Field::Ip(old), Field::Ip(new)) => {
                &&& old.same_base(new)
                &&& new.content@ == if forward {
                    crate::ip_input::rest_cleared(old.content@)
                } else {
                    crate::ip_input::octet_cleared(old.content@)
                }
            },
            _ => false,
        }
    }

    /// Deletes the word before the cursor.
    pub fn delete_word(&mut self)
        ensures
            old(self).word_deleted(final(self), false),
            old(self).well_formed() ==> final(self).well_formed(),
            final(self).spec_id() == old(self).spec_id(),
            final(self).spec_focused() == old(self).spec_focused(),
            final(self).raw_error() == old(self).raw_error(),
    {
        match self {
            Field::Text(input) => input.delete_word(),
            Field::Date(_) => {},
            Field::Ip(input) => input.delete_word(),
        }
    }

    /// Deletes the word behind the cursor.
    pub fn delete_word_forward(&mut self)
        ensures
            old(self).word_deleted(final(self), true),
            old(self).well_formed() ==> final(self).well_formed(),
            final(self).spec_id() == old(self).spec_id(),
            final(self).spec_focused() == old(self).spec_focused(),
            final(self).raw_error() == old(self).raw_error(),
    {
        match self {
            Field::Text(input) => input.delete_word_forward(),
            Field::Date(_) => {},
            Field::Ip(input) => input.delete_word_forward(),
        }
    }

    /// The content of the input as spans.
    pub open spec fn content_spans(&self) -> Seq<SpanView> {
        match self {
            Field::Text(input) => seq![
                SpanView {
                    text: padded(input.node.value@, input.node.min_width as nat),
                    style: input.opts.style_view(),
                    wrap: input.opts.wrap,
                },
            ],
            Field::Date(input) => date_spans(
                &input.node,
                input.focused,
                input.opts.style_view(),
                input.opts.wrap,
            ),
            Field::Ip(input) => ip_spans(input.content@),
        }
    }

    /// The content of the input as spans.
    pub fn render_content(&self) -> (r: Vec<Span>)
        ensures
            crate::span::span_views(r@) == self.content_spans(),
    {
        match self {
            Field::Text(input) => {
                let r = input.render_content();
                assert(crate::span::span_views(r@) =~= self.content_spans());
                r
            },
            Field::Date(input) => input.render_content(),
            Field::Ip(input) => input.render_content(),
        }
    }

    /// How far into its content the cursor of the input stands: the columns
    /// of the text before the cursor of a text input, the columns before
    /// the focused segment of a date input, the characters up to the end of
    /// the buffer of an address input.
    pub open spec fn spec_cursor_offset(&self) -> nat {
        match self {
            Field::Text(input) => crate::width::columns(
                input.node.value@.take(input.node.cursor()),
            ),
            Field::Date(input) => crate::width::columns(input.node.shown_before_focus()),
            Field::Ip(input) => crate::ip_input::cursor_place(input.content@),
        }
    }

    /// How far into its content the cursor of the input stands.
    pub fn cursor_offset_in_content(&self) -> (r: usize)
        ensures
            r == self.spec_cursor_offset(),
    {
        match self {
            Field::Text(input) => input.cursor_offset_in_content(),
            Field::Date(input) => input.cursor_offset_in_content(),
            Field::Ip(input) => input.cursor_offset_in_content(),
        }
    }
}

/// Focus flag and error slot are apart from the rest of an input: setting
/// them leaves identity, label, value, least width, the verdict of
/// validation and the invariant as they are.
pub proof fn lemma_status_apart(field: Field, focused: bool, error: Option<String>)
    ensures
        field.same_but_status(&field.with_focus(focused)),
        field.same_but_status(&field.with_error(error)),
        field.same_but_status(&field),
        field.with_focus(focused).spec_focused() == focused,
        field.with_focus(focused).raw_error() == field.raw_error(),
        field.with_error(error).spec_focused() == field.spec_focused(),
        field.with_error(error).raw_error() == error,
        field.with_error(error).spec_error() == error_text(error),
{
}

/// An input that differs in focus flag and error slot alone has the same
/// identity, label, value, least width, verdict of validation and
/// invariant.
pub proof fn lemma_same_but_status(field: Field, other: Field)
    requires
        field.same_but_status(&other),
    ensures
        other.spec_id() == field.spec_id(),
        other.spec_label() == field.spec_label(),
        other.spec_value() == field.spec_value(),
        other.spec_min_width() == field.spec_min_width(),
        other.failure() == field.failure(),
        other.well_formed() == field.well_formed(),
        other.same_but_status(&field),
{
}

/// Differing in focus flag and error slot alone carries over two steps.
pub proof fn lemma_same_but_status_chain(first: Field, second: Field, third: Field)
    requires
        first.same_but_status(&second),
        second.same_but_status(&third),
    ensures
        first.same_but_status(&third),
{
}

} // verus!
