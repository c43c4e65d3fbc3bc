//! The nodes of a screen: static text and inputs, and how each is turned
//! into spans.

use crate::chars::{repeat, repeated};
use crate::drawable::Wrap;
use crate::field::Field;
use crate::frame::{line_columns, line_width};
use crate::span::{span_views, Span, SpanView};
use crate::style::{merged, Style, StyleView};
use crate::theme::Theme;
use crate::width::{columns, str_width};
use vstd::prelude::*;

verus! {

/// One node of a screen.
#[derive(Debug)]
pub enum Node {
    Text(String),
    Input(Field),
}

/// A span of plain style that may wrap.
pub open spec fn plain(text: Seq<char>) -> SpanView {
    SpanView { text, style: Style::plain(), wrap: Wrap::Yes }
}

/// A span of the given style that may wrap.
pub open spec fn styled(text: Seq<char>, style: StyleView) -> SpanView {
    SpanView { text, style, wrap: Wrap::Yes }
}

/// The spans with the given style in place of their own.
pub open spec fn restyled(spans: Seq<SpanView>, style: StyleView) -> Seq<SpanView> {
    spans.map_values(|s: SpanView| SpanView { style, ..s })
}

/// The spans with the given style laid over their own.
pub open spec fn overlaid(spans: Seq<SpanView>, style: StyleView) -> Seq<SpanView> {
    spans.map_values(|s: SpanView| SpanView { style: merged(s.style, style), ..s })
}

/// The two spans that show an error message in place of the content.
pub open spec fn error_banner(message: Seq<char>, style: StyleView) -> Seq<SpanView> {
    seq![styled("✗ "@, style), styled(message, style)]
}

/// What stands for the content of an input: the error message where it is
/// to be shown inline, else the content of the input, in the error style
/// while the input has an error. With `overlay` the error style is laid
/// over the styles of the content, else it replaces them.
pub open spec fn shown_content(
    field: &Field,
    inline_error_message: bool,
    error_style: StyleView,
    overlay: bool,
) -> Seq<SpanView> {
    match field.spec_error() {
        Some(message) => if inline_error_message {
            error_banner(message, error_style)
        } else if overlay {
            overlaid(field.content_spans(), error_style)
        } else {
            restyled(field.content_spans(), error_style)
        },
        None => field.content_spans(),
    }
}

/// The spaces that fill spans up to a least width; none where they are
/// wide enough.
pub open spec fn filling(spans: Seq<SpanView>, min_width: nat) -> Seq<SpanView> {
    if line_width(spans) < min_width {
        seq![plain(repeated(' ', (min_width - line_width(spans)) as nat))]
    } else {
        Seq::empty()
    }
}

/// What stands for the content between brackets, filled up to the least
/// width of the input.
pub open spec fn bracketed(content: Seq<SpanView>, min_width: nat) -> Seq<SpanView> {
    seq![plain("["@)] + content + filling(content, min_width) + seq![plain("]"@)]
}

/// The spans of a node: the text of a text node; for an input its label, a
/// colon, and what stands for its content, between brackets and filled up
/// to the least width while the input has the focus.
pub open spec fn rendered(node: &Node, inline_error_message: bool, error_style: StyleView) -> Seq<
    SpanView,
> {
    match node {
        Node::Text(text) => seq![plain(text@)],
        Node::Input(field) => {
            let content = shown_content(field, inline_error_message, error_style, false);
            seq![plain(field.spec_label()), plain(": "@)] + (if field.spec_focused() {
                bracketed(content, field.spec_min_width())
            } else {
                content
            })
        },
    }
}

/// The spans of the field of a node without its label: the text of a text
/// node; for an input what stands for its content, between brackets and
/// filled up to the least width.
pub open spec fn rendered_field(
    node: &Node,
    inline_error_message: bool,
    error_style: StyleView,
) -> Seq<SpanView> {
    match node {
        Node::Text(text) => seq![plain(text@)],
        Node::Input(field) => bracketed(
            shown_content(field, inline_error_message, error_style, true),
            field.spec_min_width(),
        ),
    }
}

/// A number of columns, held at `usize::MAX`.
pub open spec fn clipped(n: nat) -> usize {
    if n <= usize::MAX {
        n as usize
    } else {
        usize::MAX
    }
}

/// The sum of the widths of spans.
fn spans_width(spans: &Vec<Span>) -> (w: usize)
    ensures
        w == line_columns(span_views(spans@)),
{
    let mut w: usize = 0;
    let ghost mut exact: nat = 0;
    let mut i: usize = 0;
    while i < spans.len()
        invariant
            i <= spans.len(),
            exact == line_width(span_views(spans@).take(i as int)),
            w == if exact <= usize::MAX {
                exact
            } else {
                usize::MAX as nat
            },
        decreases spans.len() - i,
    {
        let sw = spans[i].width();
        proof {
            assert(span_views(spans@).take(i + 1).drop_last() =~= span_views(spans@).take(i as int));
            assert(span_views(spans@).take(i + 1).last() == spans@[i as int]@);
            exact = exact + crate::width::text_width(spans@[i as int]@.text);
        }
        w = if sw > usize::MAX - w {
            usize::MAX
        } else {
            w + sw
        };
        i += 1;
    }
    assert(span_views(spans@).take(i as int) =~= span_views(spans@));
    w
}

/// Appends copies of spans.
fn extend(spans: &mut Vec<Span>, more: &Vec<Span>)
    ensures
        span_views(final(spans)@) == span_views(old(spans)@) + span_views(more@),
{
    let mut i: usize = 0;
    while i < more.len()
        invariant
            i <= more.len(),
            spans@.len() == old(spans)@.len() + i,
            forall|j: int| 0 <= j < old(spans)@.len() ==> (#[trigger] spans@[j]) == old(spans)@[j],
            forall|k: int|
                old(spans)@.len() <= k < old(spans)@.len() + i ==> (#[trigger] spans@[k])@
                    == more@[k - old(spans)@.len()]@,
        decreases more.len() - i,
    {
        spans.push(more[i].clone());
        i += 1;
    }
    assert(span_views(spans@) =~= span_views(old(spans)@) + span_views(more@));
}

/// What stands for the content of an input.
fn show_content(field: &Field, inline_error_message: bool, error_style: &Style, overlay: bool) -> (r:
    Vec<Span>)
    ensures
        span_views(r@) == shown_content(field, inline_error_message, error_style@, overlay),
{
    let content = field.render_content();
    match field.error() {
        Some(message) => {
            let mut spans: Vec<Span> = Vec::new();
            if inline_error_message {
                spans.push(Span::new("✗ ").with_style(error_style.clone()));
                spans.push(Span::new(message).with_style(error_style.clone()));
                assert(span_views(spans@) =~= error_banner(message@, error_style@));
            } else {
                let mut i: usize = 0;
                while i < content.len()
                    invariant
                        i <= content.len(),
                        spans@.len() == i,
                        forall|j: int|
                            0 <= j < i ==> (#[trigger] spans@[j])@ == (SpanView {
                                style: if overlay {
                                    merged(content@[j]@.style, error_style@)
                                } else {
                                    error_style@
                                },
                                ..content@[j]@
                            }),
                    decreases content.len() - i,
                {
                    let span = content[i].clone();
                    let style = if overlay {
                        span.style().clone().merge(error_style)
                    } else {
                        error_style.clone()
                    };
                    spans.push(span.with_style(style));
                    i += 1;
                }
                proof {
                    if overlay {
                        assert(span_views(spans@) =~= overlaid(span_views(content@), error_style@));
                    } else {
                        assert(span_views(spans@) =~= restyled(span_views(content@), error_style@));
                    }
                }
            }
            spans
        },
        None => content,
    }
}

/// Puts content between brackets and fills it up to a least width.
fn bracket(content: Vec<Span>, min_width: usize) -> (r: Vec<Span>)
    ensures
        span_views(r@) == bracketed(span_views(content@), min_width as nat),
{
    let width = spans_width(&content);
    let ghost inner = span_views(content@);
    let mut spans: Vec<Span> = Vec::new();
    spans.push(Span::new("["));
    assert(span_views(spans@) =~= seq![plain("["@)]);
    extend(&mut spans, &content);
    let ghost opened = span_views(spans@);
    if width < min_width {
        let fill = repeat(' ', min_width - width);
        let span = Span::new(fill.as_str());
        spans.push(span);
        assert(span_views(spans@) =~= opened.push(span@));
        assert(opened.push(span@) =~= opened + filling(inner, min_width as nat));
    } else {
        assert(opened =~= opened + filling(inner, min_width as nat));
    }
    let ghost filled = span_views(spans@);
    let close = Span::new("]");
    spans.push(close);
    assert(span_views(spans@) =~= filled.push(close@));
    assert(span_views(spans@) =~= bracketed(inner, min_width as nat));
    spans
}

impl Node {
    /// Whether the node is an input that has the focus.
    pub open spec fn holds_cursor(&self) -> bool {
        match self {
            Node::Input(field) => field.spec_focused(),
            Node::Text(_) => false,
        }
    }

    /// How many columns into the spans of the node the cursor stands: for a
    /// focused input, behind its label, the colon, the space and the
    /// opening bracket, as far as the cursor stands into the content.
    pub open spec fn spec_cursor_offset(&self) -> Option<usize> {
        match self {
            Node::Input(field) => if field.spec_focused() {
                Some(clipped(columns(field.spec_label()) + 3 + field.spec_cursor_offset()))
            } else {
                None
            },
            Node::Text(_) => None,
        }
    }

    /// How many columns into the spans of its field the cursor stands: for
    /// a focused input, behind the opening bracket, as far as the cursor
    /// stands into the content.
    pub open spec fn spec_cursor_offset_in_field(&self) -> Option<usize> {
        match self {
            Node::Input(field) => if field.spec_focused() {
                Some(clipped(field.spec_cursor_offset() + 1))
            } else {
                None
            },
            Node::Text(_) => None,
        }
    }

    /// A node of static text.
    pub fn text(text: &str) -> (r: Self)
        ensures
            r matches Node::Text(t) && t@ == text@,
    {
        Node::Text(String::from_str(text))
    }

    /// A node that holds an input.
    pub fn input(input: Field) -> (r: Self)
        ensures
            r == Node::Input(input),
    {
        Node::Input(input)
    }

    /// The input of the node, where it holds one.
    pub fn as_input(&self) -> (r: Option<&Field>)
        ensures
            r == match self {
                Node::Input(field) => Some(field),
                Node::Text(_) => None,
            },
    {
        match self {
            Node::Input(field) => Some(field),
            Node::Text(_) => None,
        }
    }

    /// The input of the node for changing it, where it holds one.
    pub fn as_input_mut(&mut self) -> (r: Option<&mut Field>)
        ensures
            r is Some == (*old(self) is Input),
            r matches Some(field) ==> *field == old(self)->Input_0 && *final(self) == Node::Input(
                *final(field),
            ),
            r is None ==> *final(self) == *old(self),
    {
        match self {
            Node::Input(field) => Some(field),
            Node::Text(_) => None,
        }
    }

    /// Whether the node holds an input.
    pub fn is_input(&self) -> (r: bool)
        ensures
            r == (*self is Input),
    {
        match self {
            Node::Input(_) => true,
            Node::Text(_) => false,
        }
    }

    /// The spans of the node.
    pub fn render(&self, inline_error_message: bool, theme: &Theme) -> (r: Vec<Span>)
        ensures
            span_views(r@) == rendered(self, inline_error_message, theme.error@),
    {
        match self {
            Node::Text(text) => {
                let mut spans: Vec<Span> = Vec::new();
                spans.push(Span::new(text.as_str()));
                assert(span_views(spans@) =~= rendered(self, inline_error_message, theme.error@));
                spans
            },
            Node::Input(field) => {
                let content = show_content(field, inline_error_message, &theme.error, false);
                let ghost inner = span_views(content@);
                let tail = if field.is_focused() {
                    bracket(content, field.min_width())
                } else {
                    content
                };
                let mut spans: Vec<Span> = Vec::new();
                spans.push(Span::new(field.label()));
                spans.push(Span::new(": "));
                let ghost head = seq![plain(field.spec_label()), plain(": "@)];
                assert(span_views(spans@) =~= head);
                extend(&mut spans, &tail);
                spans
            },
        }
    }

    /// The spans of the field of the node, without its label.
    pub fn render_field(&self, inline_error_message: bool, theme: &Theme) -> (r: Vec<Span>)
        ensures
            span_views(r@) == rendered_field(self, inline_error_message, theme.error@),
    {
        match self {
            Node::Text(text) => {
                let mut spans: Vec<Span> = Vec::new();
                spans.push(Span::new(text.as_str()));
                assert(span_views(spans@) =~= rendered_field(self, inline_error_message, theme.error@));
                spans
            },
            Node::Input(field) => {
                let content = show_content(field, inline_error_message, &theme.error, true);
                bracket(content, field.min_width())
            },
        }
    }

    /// How many columns into the spans of the node the cursor stands: for a
    /// focused input, behind its label, the colon, a space and the opening
    /// bracket, as far as the cursor stands into the content.
    pub fn cursor_offset(&self) -> (r: Option<usize>)
        ensures
            r == self.spec_cursor_offset(),
    {
        match self {
            Node::Input(field) => {
                if field.is_focused() {
                    let label = str_width(field.label());
                    let offset = field.cursor_offset_in_content();
                    let lead: usize = if label > usize::MAX - 3 {
                        usize::MAX
                    } else {
                        label + 3
                    };
                    if offset > usize::MAX - lead {
                        Some(usize::MAX)
                    } else {
                        Some(lead + offset)
                    }
                } else {
                    None
                }
            },
            Node::Text(_) => None,
        }
    }

    /// How many columns into the spans of its field the cursor stands: for
    /// a focused input, behind the opening bracket, as far as the cursor
    /// stands into the content.
    pub fn cursor_offset_in_field(&self) -> (r: Option<usize>)
        ensures
            r == self.spec_cursor_offset_in_field(),
    {
        match self {
            Node::Input(field) => {
                if field.is_focused() {
                    let offset = field.cursor_offset_in_content();
                    if offset > usize::MAX - 1 {
                        Some(usize::MAX)
                    } else {
                        Some(1 + offset)
                    }
                } else {
                    None
                }
            },
            Node::Text(_) => None,
        }
    }
}

} // verus!
