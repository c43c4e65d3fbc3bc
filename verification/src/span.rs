//! A run of text with one style and one wrap policy.

use crate::chars::{collect, from_chars, to_chars};
use crate::drawable::Wrap;
use crate::style::{Style, StyleView};
use crate::width::{
    char_columns, char_width, columns, lemma_width_prefix_monotone, lemma_width_push,
    lemma_width_split, str_width, text_width,
};
use vstd::prelude::*;

verus! {

/// What a span holds.
pub struct SpanView {
    pub text: Seq<char>,
    pub style: StyleView,
    pub wrap: Wrap,
}

/// An atomic run of styled text.
#[derive(Debug, PartialEq, Eq)]
pub struct Span {
    text: String,
    style: Style,
    wrap: Wrap,
}

impl View for Span {
    type V = SpanView;

    closed spec fn view(&self) -> SpanView {
        SpanView { text: self.text@, style: self.style@, wrap: self.wrap }
    }
}

/// The views of spans.
pub open spec fn span_views(spans: Seq<Span>) -> Seq<SpanView> {
    spans.map_values(|s: Span| s@)
}

/// How many leading characters of `s` fit into `max` columns: the length of
/// the longest prefix that is at most `max` columns wide.
pub open spec fn fitting_prefix(s: Seq<char>, max: nat) -> nat
    decreases s.len(),
{
    if s.len() == 0 || char_width(s[0]) > max {
        0
    } else {
        1 + fitting_prefix(s.drop_first(), (max - char_width(s[0])) as nat)
    }
}

/// How many characters the head of a split at `max` columns holds: none for
/// `max == 0`, all where the text fits, else as many as fit.
pub open spec fn head_len(text: Seq<char>, max: nat) -> nat {
    if max == 0 {
        0
    } else if columns(text) <= max {
        text.len()
    } else {
        fitting_prefix(text, max)
    }
}

/// Whether a split at `max` columns leaves a tail: always for `max == 0`,
/// else where the text does not fit.
pub open spec fn has_tail(text: Seq<char>, max: nat) -> bool {
    max == 0 || columns(text) > max
}

/// The fitting prefix is a prefix, fits, and cannot be made longer.
pub proof fn lemma_fitting_prefix(s: Seq<char>, max: nat)
    ensures
        fitting_prefix(s, max) <= s.len(),
        text_width(s.take(fitting_prefix(s, max) as int)) <= max,
        fitting_prefix(s, max) < s.len() ==> text_width(s.take(fitting_prefix(s, max) as int + 1))
            > max,
    decreases s.len(),
{
    if s.len() == 0 || char_width(s[0]) > max {
        assert(s.take(0) =~= Seq::<char>::empty());
        if s.len() > 0 {
            assert(s.take(1) =~= Seq::<char>::empty().push(s[0]));
            lemma_width_push(Seq::<char>::empty(), s[0]);
        }
    } else {
        let rest = s.drop_first();
        let left = (max - char_width(s[0])) as nat;
        lemma_fitting_prefix(rest, left);
        let k = fitting_prefix(rest, left);
        let first = seq![s[0]];
        assert(first =~= Seq::<char>::empty().push(s[0]));
        lemma_width_push(Seq::<char>::empty(), s[0]);
        assert(s.take(k as int + 1) =~= first + rest.take(k as int));
        crate::width::lemma_width_concat(first, rest.take(k as int));
        if k < rest.len() {
            assert(s.take(k as int + 2) =~= first + rest.take(k as int + 1));
            crate::width::lemma_width_concat(first, rest.take(k as int + 1));
        }
    }
}

/// The fitting prefix is the only length that fits and cannot be extended.
pub proof fn lemma_fitting_prefix_unique(s: Seq<char>, max: nat, k: nat)
    requires
        k <= s.len(),
        text_width(s.take(k as int)) <= max,
        k < s.len() ==> text_width(s.take(k as int + 1)) > max,
    ensures
        fitting_prefix(s, max) == k,
{
    lemma_fitting_prefix(s, max);
    let f = fitting_prefix(s, max);
    if f < k {
        lemma_width_prefix_monotone(s, f as int + 1, k as int);
    } else if k < f {
        lemma_width_prefix_monotone(s, k as int + 1, f as int);
    }
}

impl Span {
    /// The width of the span in columns.
    pub open spec fn spec_width(&self) -> nat {
        columns(self@.text)
    }

    /// A span of plain style that may wrap.
    pub fn new(text: &str) -> (r: Self)
        ensures
            r@ == (SpanView { text: text@, style: Style::plain(), wrap: Wrap::Yes }),
    {
        Span { text: String::from_str(text), style: Style::new(), wrap: Wrap::Yes }
    }

    /// The text.
    pub fn text(&self) -> (r: &str)
        ensures
            r@ == self@.text,
    {
        self.text.as_str()
    }

    /// The style.
    pub fn style(&self) -> (r: &Style)
        ensures
            r@ == self@.style,
    {
        &self.style
    }

    /// The wrap policy.
    pub fn wrap(&self) -> (r: Wrap)
        ensures
            r == self@.wrap,
    {
        self.wrap
    }

    /// Sets the style.
    pub fn with_style(self, style: Style) -> (r: Self)
        ensures
            r@ == (SpanView { style: style@, ..self@ }),
    {
        Span { text: self.text, style, wrap: self.wrap }
    }

    /// Sets the wrap policy.
    pub fn with_wrap(self, wrap: Wrap) -> (r: Self)
        ensures
            r@ == (SpanView { wrap, ..self@ }),
    {
        Span { text: self.text, style: self.style, wrap }
    }

    /// The display width of the text: the sum of the widths of its
    /// characters.
    pub fn width(&self) -> (w: usize)
        ensures
            w == columns(self@.text),
    {
        str_width(self.text.as_str())
    }

    /// Splits the span at a column: the head holds the first
    /// `head_len(text, max)` characters, the tail the rest, and both keep
    /// style and wrap policy. For `max == 0` the head is empty and the tail
    /// is the whole span; where the span fits, the head is the whole span
    /// and there is no tail; else the head is the widest prefix of at most
    /// `max` columns.
    pub fn split_at_width(&self, max: usize) -> (r: (Span, Option<Span>))
        ensures
            r.0@ == (SpanView {
                text: self@.text.take(head_len(self@.text, max as nat) as int),
                ..self@
            }),
            has_tail(self@.text, max as nat) ==> (r.1 matches Some(t) && t@ == (SpanView {
                text: self@.text.skip(head_len(self@.text, max as nat) as int),
                ..self@
            })),
            !has_tail(self@.text, max as nat) ==> r.1 is None,
            head_len(self@.text, max as nat) <= self@.text.len(),
            columns(r.0@.text) <= max,
            (max > 0 && has_tail(self@.text, max as nat)) ==> head_len(self@.text, max as nat)
                < self@.text.len() && text_width(
                self@.text.take(head_len(self@.text, max as nat) as int + 1),
            ) > max,
    {
        let ghost text = self@.text;
        if max == 0 {
            let head = Span { text: String::new(), style: self.style.clone(), wrap: self.wrap };
            assert(head@.text =~= text.take(0));
            assert(text.skip(0) =~= text);
            return (head, Some(self.clone()));
        }
        if self.width() <= max {
            assert(text.take(text.len() as int) =~= text);
            return (self.clone(), None);
        }
        let chars = to_chars(self.text.as_str());
        let n = chars.len();
        let mut i: usize = 0;
        let mut acc: usize = 0;
        proof {
            assert(text.skip(0) =~= text);
            assert(text.take(0) =~= Seq::<char>::empty());
        }
        while i < n && char_columns(chars[i]) <= max - acc
            invariant
                n == chars.len(),
                chars@ == text,
                i <= n,
                acc <= max,
                acc == text_width(text.take(i as int)),
                fitting_prefix(text, max as nat) == i + fitting_prefix(
                    text.skip(i as int),
                    (max - acc) as nat,
                ),
            decreases n - i,
        {
            proof {
                let rest = text.skip(i as int);
                assert(rest[0] == text[i as int]);
                assert(rest.drop_first() =~= text.skip(i + 1));
                assert(text.take(i + 1) =~= text.take(i as int).push(text[i as int]));
                lemma_width_push(text.take(i as int), text[i as int]);
            }
            acc = acc + char_columns(chars[i]);
            i += 1;
        }
        proof {
            lemma_fitting_prefix(text, max as nat);
            if i == n {
                assert(text.take(n as int) =~= text);
            } else {
                assert(text.skip(i as int)[0] == text[i as int]);
            }
            assert(fitting_prefix(text, max as nat) == i);
        }
        let head_text = from_chars(&chars, 0, i);
        let tail_text = from_chars(&chars, i, n);
        let head = Span { text: head_text, style: self.style.clone(), wrap: self.wrap };
        let tail = Span { text: tail_text, style: self.style.clone(), wrap: self.wrap };
        assert(head@.text =~= text.take(i as int));
        assert(tail@.text =~= text.skip(i as int));
        (head, Some(tail))
    }
}

impl Clone for Span {
    fn clone(&self) -> (r: Self)
        ensures
            r@ == self@,
    {
        Span { text: self.text.clone(), style: self.style.clone(), wrap: self.wrap }
    }
}

/// A split loses nothing: where the span is wider than `max` columns, the
/// head is at most `max` columns wide and head and tail together spell the
/// text.
pub proof fn lemma_split_round_trip(text: Seq<char>, max: nat)
    requires
        max < columns(text),
    ensures
        has_tail(text, max),
        head_len(text, max) <= text.len(),
        columns(text.take(head_len(text, max) as int)) <= max,
        text.take(head_len(text, max) as int) + text.skip(head_len(text, max) as int) == text,
{
    lemma_fitting_prefix(text, max);
    let k = head_len(text, max);
    assert(text.take(0) =~= Seq::<char>::empty());
    assert(text.take(k as int) + text.skip(k as int) =~= text);
}

} // verus!
