//! Lines of spans, and the frame that one render pass paints.

use crate::span::{span_views, Span, SpanView};
use crate::width::{columns, text_width};
use vstd::prelude::*;

verus! {

/// The sum of the widths of the spans of a line.
pub open spec fn line_width(spans: Seq<SpanView>) -> nat
    decreases spans.len(),
{
    if spans.len() == 0 {
        0
    } else {
        line_width(spans.drop_last()) + text_width(spans.last().text)
    }
}

/// The width of a line as a machine integer, held at `usize::MAX`.
pub open spec fn line_columns(spans: Seq<SpanView>) -> nat {
    if line_width(spans) <= usize::MAX {
        line_width(spans)
    } else {
        usize::MAX as nat
    }
}

/// The texts of the spans of a line, one behind the other.
pub open spec fn line_text(spans: Seq<SpanView>) -> Seq<char>
    decreases spans.len(),
{
    if spans.len() == 0 {
        Seq::empty()
    } else {
        line_text(spans.drop_last()) + spans.last().text
    }
}

/// The texts of the lines of a frame, with a line feed between two lines.
pub open spec fn frame_text(lines: Seq<Seq<SpanView>>) -> Seq<char>
    decreases lines.len(),
{
    if lines.len() == 0 {
        Seq::empty()
    } else if lines.len() == 1 {
        line_text(lines[0])
    } else {
        frame_text(lines.drop_last()).push('\n') + line_text(lines.last())
    }
}

/// A frame without its trailing empty lines, but never without a line.
pub open spec fn trimmed(lines: Seq<Seq<SpanView>>) -> Seq<Seq<SpanView>>
    decreases lines.len(),
{
    if lines.len() == 0 {
        seq![Seq::empty()]
    } else if lines.last().len() == 0 {
        trimmed(lines.drop_last())
    } else {
        lines
    }
}

/// A trimmed frame has a line, is a prefix of the frame unless the frame was
/// all empty, and ends in a line with content unless it is a single empty
/// line.
pub proof fn lemma_trimmed(lines: Seq<Seq<SpanView>>)
    ensures
        trimmed(lines).len() >= 1,
        trimmed(lines).len() <= lines.len() || trimmed(lines) == seq![Seq::<SpanView>::empty()],
        trimmed(lines).last().len() > 0 || trimmed(lines) == seq![Seq::<SpanView>::empty()],
        trimmed(lines).last().len() > 0 ==> trimmed(lines) == lines.take(
            trimmed(lines).len() as int,
        ),
        forall|i: int|
            trimmed(lines).len() <= i < lines.len() ==> (#[trigger] lines[i]).len() == 0,
    decreases lines.len(),
{
    if lines.len() == 0 {
    } else if lines.last().len() == 0 {
        lemma_trimmed(lines.drop_last());
        let t = trimmed(lines);
        if t.last().len() > 0 {
            assert(lines.drop_last().take(t.len() as int) =~= lines.take(t.len() as int));
        }
        assert forall|i: int| t.len() <= i < lines.len() implies (#[trigger] lines[i]).len()
            == 0 by {
            if i < lines.len() - 1 {
                assert(lines.drop_last()[i] == lines[i]);
            }
        }
    } else {
        assert(lines.take(lines.len() as int) =~= lines);
    }
}

/// Trimming a trimmed frame changes nothing.
pub proof fn lemma_trimmed_idempotent(lines: Seq<Seq<SpanView>>)
    ensures
        trimmed(trimmed(lines)) == trimmed(lines),
    decreases lines.len(),
{
    if lines.len() == 0 {
        let one = seq![Seq::<SpanView>::empty()];
        assert(one.last().len() == 0);
        assert(one.drop_last() =~= Seq::<Seq<SpanView>>::empty());
        assert(trimmed(one.drop_last()) == one);
    } else if lines.last().len() == 0 {
        lemma_trimmed_idempotent(lines.drop_last());
    }
}

/// Whether no span of a line has empty text.
pub open spec fn no_empty_span(spans: Seq<SpanView>) -> bool {
    forall|i: int| 0 <= i < spans.len() ==> (#[trigger] spans[i]).text.len() > 0
}

/// An ordered sequence of spans, none of them with empty text.
#[derive(Debug, PartialEq, Eq)]
pub struct Line {
    spans: Vec<Span>,
}

impl View for Line {
    type V = Seq<SpanView>;

    closed spec fn view(&self) -> Seq<SpanView> {
        span_views(self.spans@)
    }
}

impl Line {
    /// The invariant of a line: it holds no span with empty text.
    pub open spec fn well_formed(&self) -> bool {
        no_empty_span(self@)
    }

    /// A line without spans.
    pub fn new() -> (r: Self)
        ensures
            r@ == Seq::<SpanView>::empty(),
            r.well_formed(),
    {
        let r = Line { spans: Vec::new() };
        assert(r@ =~= Seq::<SpanView>::empty());
        r
    }

    /// Appends a span; one with empty text is dropped.
    pub fn push(&mut self, span: Span)
        ensures
            final(self)@ == if span@.text.len() > 0 {
                old(self)@.push(span@)
            } else {
                old(self)@
            },
            old(self).well_formed() ==> final(self).well_formed(),
    {
        if span.text().unicode_len() > 0 {
            self.spans.push(span);
            assert(self@ =~= old(self)@.push(span@));
        }
    }

    /// Whether the line holds no span.
    pub fn is_empty(&self) -> (r: bool)
        ensures
            r == (self@.len() == 0),
    {
        self.spans.len() == 0
    }

    /// The spans of the line.
    pub fn spans(&self) -> (r: &[Span])
        ensures
            span_views(r@) == self@,
    {
        self.spans.as_slice()
    }

    /// The sum of the widths of the spans.
    pub fn width(&self) -> (w: usize)
        ensures
            w == line_columns(self@),
    {
        let mut w: usize = 0;
        let ghost mut exact: nat = 0;
        let mut i: usize = 0;
        while i < self.spans.len()
            invariant
                i <= self.spans.len(),
                exact == line_width(self@.take(i as int)),
                w == if exact <= usize::MAX { exact } else { usize::MAX as nat },
            decreases self.spans.len() - i,
        {
            let sw = self.spans[i].width();
            proof {
                assert(self@.take(i + 1).drop_last() =~= self@.take(i as int));
                assert(self@.take(i + 1).last() == self.spans@[i as int]@);
                exact = exact + text_width(self.spans@[i as int]@.text);
            }
            w = if sw > usize::MAX - w { usize::MAX } else { w + sw };
            i += 1;
        }
        assert(self@.take(i as int) =~= self@);
        w
    }

    /// The text of the line without its styles.
    pub fn to_string(&self) -> (s: String)
        ensures
            s@ == line_text(self@),
    {
        let mut s = String::new();
        let mut i: usize = 0;
        while i < self.spans.len()
            invariant
                i <= self.spans.len(),
                s@ == line_text(self@.take(i as int)),
            decreases self.spans.len() - i,
        {
            proof {
                assert(self@.take(i + 1).drop_last() =~= self@.take(i as int));
                assert(self@.take(i + 1).last() == self.spans@[i as int]@);
            }
            s.append(self.spans[i].text());
            i += 1;
        }
        assert(self@.take(i as int) =~= self@);
        s
    }
}

impl Default for Line {
    fn default() -> (r: Self)
        ensures
            r@ == Seq::<SpanView>::empty(),
    {
        Line::new()
    }
}

impl Clone for Line {
    fn clone(&self) -> (r: Self)
        ensures
            r@ == self@,
    {
        let mut spans: Vec<Span> = Vec::new();
        let mut i: usize = 0;
        while i < self.spans.len()
            invariant
                i <= self.spans.len(),
                spans@.len() == i,
                forall|j: int| 0 <= j < i ==> (#[trigger] spans@[j])@ == self.spans@[j]@,
            decreases self.spans.len() - i,
        {
            spans.push(self.spans[i].clone());
            i += 1;
        }
        let r = Line { spans };
        assert(r@ =~= self@);
        r
    }
}

/// The laid-out output of one render pass: lines from top to bottom.
#[derive(Debug, PartialEq, Eq)]
pub struct Frame {
    lines: Vec<Line>,
}

impl View for Frame {
    type V = Seq<Seq<SpanView>>;

    closed spec fn view(&self) -> Seq<Seq<SpanView>> {
        self.lines@.map_values(|l: Line| l@)
    }
}

impl Frame {
    /// A frame without lines.
    pub fn new() -> (r: Self)
        ensures
            r@ == Seq::<Seq<SpanView>>::empty(),
    {
        let r = Frame { lines: Vec::new() };
        assert(r@ =~= Seq::<Seq<SpanView>>::empty());
        r
    }

    /// The lines from top to bottom.
    pub fn lines(&self) -> (r: &[Line])
        ensures
            r@.len() == self@.len(),
            forall|i: int| 0 <= i < r@.len() ==> (#[trigger] r@[i])@ == self@[i],
    {
        self.lines.as_slice()
    }

    /// The number of lines.
    pub fn len(&self) -> (n: usize)
        ensures
            n == self@.len(),
    {
        self.lines.len()
    }

    /// Makes sure that there is a line to write on.
    pub fn ensure_line(&mut self)
        ensures
            final(self)@ == with_line(old(self)@),
    {
        if self.lines.len() == 0 {
            self.lines.push(Line::new());
            assert(self@ =~= seq![Seq::<SpanView>::empty()]);
        }
    }

    /// The lines, for changing them.
    pub fn lines_mut(&mut self) -> (r: &mut Vec<Line>)
        ensures
            r@.map_values(|l: Line| l@) == old(self)@,
            final(self)@ == final(r)@.map_values(|l: Line| l@),
    {
        &mut self.lines
    }

    /// The last line, for changing it; a frame without lines gets one first.
    pub fn current_line_mut(&mut self) -> (r: &mut Line)
        ensures
            r@ == with_line(old(self)@).last(),
            final(self)@ == with_line(old(self)@).update(
                with_line(old(self)@).len() - 1,
                final(r)@,
            ),
    {
        self.ensure_line();
        assert(self.lines@.len() == self@.len());
        let ghost before = self@;
        let ghost raw = self.lines@;
        let last = self.lines.len() - 1;
        assert(before[last as int] == raw[last as int]@);
        let line = &mut self.lines[last];
        proof {
            let after = raw.update(last as int, *final(line));
            assert(after.map_values(|l: Line| l@) =~= before.update(last as int, final(line)@));
        }
        line
    }

    /// Starts a new, empty line.
    pub fn new_line(&mut self)
        ensures
            final(self)@ == old(self)@.push(Seq::<SpanView>::empty()),
    {
        self.lines.push(Line::new());
        assert(self@ =~= old(self)@.push(Seq::<SpanView>::empty()));
    }

    /// Appends a span to the last line, which is made first where the frame
    /// has none; a span with empty text is dropped.
    pub fn push_span(&mut self, span: Span)
        ensures
            final(self)@ == appended(old(self)@, span@),
    {
        self.ensure_line();
        let mut line = self.lines.pop().unwrap();
        line.push(span);
        self.lines.push(line);
        assert(self@ =~= appended(old(self)@, span@));
    }

    /// Drops the empty lines at the end, and keeps at least one line.
    pub fn trim_trailing_empty(&mut self)
        ensures
            final(self)@ == trimmed(old(self)@),
            final(self)@.len() >= 1,
    {
        while self.lines.len() > 0 && self.lines[self.lines.len() - 1].is_empty()
            invariant
                trimmed(self@) == trimmed(old(self)@),
            decreases self.lines.len(),
        {
            let ghost before = self@;
            self.lines.pop();
            assert(self@ =~= before.drop_last());
        }
        if self.lines.len() == 0 {
            self.lines.push(Line::new());
            assert(self@ =~= seq![Seq::<SpanView>::empty()]);
        }
        proof {
            lemma_trimmed(old(self)@);
        }
    }

    /// The text of the frame without its styles, one line of text for each
    /// line of the frame.
    pub fn to_string(&self) -> (s: String)
        ensures
            s@ == frame_text(self@),
    {
        let mut s = String::new();
        let mut i: usize = 0;
        while i < self.lines.len()
            invariant
                i <= self.lines.len(),
                s@ == frame_text(self@.take(i as int)),
            decreases self.lines.len() - i,
        {
            proof {
                assert(self@.take(i + 1).drop_last() =~= self@.take(i as int));
                assert(self@.take(i + 1).last() == self.lines@[i as int]@);
                assert(self@.take(i + 1)[0] == self@[0]);
            }
            if i > 0 {
                s.push('\n');
            }
            let text = self.lines[i].to_string();
            s.append(text.as_str());
            i += 1;
            assert(s@ =~= frame_text(self@.take(i as int)));
        }
        assert(self@.take(i as int) =~= self@);
        s
    }
}

/// The frame with a line to write on: a frame without lines gets one.
pub open spec fn with_line(lines: Seq<Seq<SpanView>>) -> Seq<Seq<SpanView>> {
    if lines.len() == 0 {
        seq![Seq::<SpanView>::empty()]
    } else {
        lines
    }
}

/// The frame `lines` with `span` appended to its last line; a frame without
/// lines gets one first, and a span with empty text changes nothing else.
pub open spec fn appended(lines: Seq<Seq<SpanView>>, span: SpanView) -> Seq<Seq<SpanView>> {
    let base = with_line(lines);
    if span.text.len() > 0 {
        base.update(base.len() - 1, base.last().push(span))
    } else {
        base
    }
}

impl Default for Frame {
    fn default() -> (r: Self)
        ensures
            r@ == Seq::<Seq<SpanView>>::empty(),
    {
        Frame::new()
    }
}

impl Clone for Frame {
    fn clone(&self) -> (r: Self)
        ensures
            r@ == self@,
    {
        let mut lines: Vec<Line> = Vec::new();
        let mut i: usize = 0;
        while i < self.lines.len()
            invariant
                i <= self.lines.len(),
                lines@.len() == i,
                forall|j: int| 0 <= j < i ==> (#[trigger] lines@[j])@ == self.lines@[j]@,
            decreases self.lines.len() - i,
        {
            lines.push(self.lines[i].clone());
            i += 1;
        }
        let r = Frame { lines };
        assert(r@ =~= self@);
        r
    }
}

} // verus!
