//! The layout engine: wraps the spans of render units into the lines of a
//! frame under a width budget, and finds the cursor.

use crate::drawable::{Display, Wrap};
use crate::frame::{
    appended, lemma_trimmed, line_text, line_width, no_empty_span, trimmed, with_line, Frame,
};
use crate::render_context::RenderContext;
use crate::span::{head_len, lemma_fitting_prefix, span_views, Span, SpanView};
use crate::width::{columns, text_width};
use vstd::prelude::*;

verus! {

/// Where a render unit starts in the frame.
#[derive(Debug, Clone, Copy, PartialEq, Eq, Structural)]
pub struct Placed {
    /// Index of the unit in the sequence that was laid out.
    pub index: usize,
    /// Column of its first cell.
    pub x: usize,
    /// Line of its first cell.
    pub y: usize,
}

/// What one node of a screen hands to the layout: its spans, whether it
/// starts a line of its own, and, for the focused input, how many columns
/// into its own content the cursor stands.
#[derive(Debug)]
pub struct RenderUnit {
    pub spans: Vec<Span>,
    pub display: Display,
    pub cursor_offset: Option<usize>,
}

/// What a render unit holds.
pub struct UnitView {
    pub spans: Seq<SpanView>,
    pub display: Display,
    pub cursor_offset: Option<usize>,
}

impl View for RenderUnit {
    type V = UnitView;

    open spec fn view(&self) -> UnitView {
        UnitView {
            spans: span_views(self.spans@),
            display: self.display,
            cursor_offset: self.cursor_offset,
        }
    }
}

impl RenderUnit {
    /// A unit without a cursor.
    pub fn new(spans: Vec<Span>, display: Display) -> (r: Self)
        ensures
            r.spans == spans,
            r.display == display,
            r.cursor_offset is None,
    {
        RenderUnit { spans, display, cursor_offset: None }
    }

    /// Reports the cursor at a number of columns into the unit.
    pub fn with_cursor(self, offset: usize) -> (r: Self)
        ensures
            r.spans == self.spans,
            r.display == self.display,
            r.cursor_offset == Some(offset),
    {
        RenderUnit { spans: self.spans, display: self.display, cursor_offset: Some(offset) }
    }
}

/// The views of a sequence of units.
pub open spec fn unit_views(units: Seq<RenderUnit>) -> Seq<UnitView> {
    units.map_values(|u: RenderUnit| u@)
}

/// The lines built so far and the columns used on the last of them.
pub struct Flow {
    pub lines: Seq<Seq<SpanView>>,
    pub used: nat,
}

/// The state of a layout: the flow of lines, the cursor found so far as
/// column and line, and where each unit started.
pub struct LayoutView {
    pub flow: Flow,
    pub cursor: Option<(nat, nat)>,
    pub placed: Seq<Placed>,
}

/// The columns left on the current line.
pub open spec fn remaining(flow: Flow, width: nat) -> nat {
    if width > flow.used {
        (width - flow.used) as nat
    } else {
        0
    }
}

/// The flow after starting a new line.
pub open spec fn break_line(flow: Flow) -> Flow {
    Flow { lines: flow.lines.push(Seq::empty()), used: 0 }
}

/// The flow after putting a span on the current line.
pub open spec fn put(flow: Flow, span: SpanView) -> Flow {
    Flow { lines: appended(flow.lines, span), used: flow.used + columns(span.text) }
}

/// The flow after placing a span of positive width piece by piece: what
/// fits goes on the current line, the rest on new lines; a piece of which
/// not even the first character fits on an empty line is put there whole.
pub open spec fn place_chunks(flow: Flow, span: SpanView, width: nat) -> Flow
    decreases span.text.len(), flow.used,
{
    let room = remaining(flow, width);
    if columns(span.text) <= room {
        put(flow, span)
    } else {
        let k = head_len(span.text, room);
        if k == 0 {
            if flow.used == 0 {
                put(flow, span)
            } else {
                place_chunks(break_line(flow), span, width)
            }
        } else {
            proof {
                lemma_fitting_prefix(span.text, room);
            }
            let head = SpanView { text: span.text.take(k as int), ..span };
            let tail = SpanView { text: span.text.skip(k as int), ..span };
            place_chunks(break_line(put(flow, head)), tail, width)
        }
    }
}

/// The flow after placing one span. A span without width is put on the
/// current line, or dropped where the frame has no width. A span that must
/// not wrap starts a new line first where it does not fit behind what the
/// line already holds.
pub open spec fn place_span(flow: Flow, span: SpanView, width: nat) -> Flow {
    if columns(span.text) == 0 {
        if width > 0 {
            Flow { lines: appended(flow.lines, span), used: flow.used }
        } else {
            flow
        }
    } else if span.wrap == Wrap::No && columns(span.text) > remaining(flow, width) && flow.used
        > 0 {
        place_chunks(break_line(flow), span, width)
    } else {
        place_chunks(flow, span, width)
    }
}

/// The flow after placing spans in order.
pub open spec fn place_spans(flow: Flow, spans: Seq<SpanView>, width: nat) -> Flow
    decreases spans.len(),
{
    if spans.len() == 0 {
        flow
    } else {
        place_span(place_spans(flow, spans.drop_last(), width), spans.last(), width)
    }
}

/// The flow in which a unit starts: a block unit leaves a line that already
/// holds something.
pub open spec fn unit_start(flow: Flow, display: Display) -> Flow {
    if display == Display::Block && flow.used > 0 {
        break_line(flow)
    } else {
        flow
    }
}

/// The layout after placing the unit with the given index: it is noted where
/// the unit starts, the cursor is taken from there where the unit reports
/// one, and its spans are placed.
pub open spec fn place_unit(st: LayoutView, unit: UnitView, index: nat, width: nat) -> LayoutView {
    let start = unit_start(st.flow, unit.display);
    let row = (start.lines.len() - 1) as nat;
    LayoutView {
        flow: place_spans(start, unit.spans, width),
        cursor: match unit.cursor_offset {
            Some(offset) => Some((start.used + offset as nat, row)),
            None => st.cursor,
        },
        placed: st.placed.push(
            Placed { index: index as usize, x: start.used as usize, y: row as usize },
        ),
    }
}

/// The layout after placing units in order.
pub open spec fn place_units(st: LayoutView, units: Seq<UnitView>, width: nat) -> LayoutView
    decreases units.len(),
{
    if units.len() == 0 {
        st
    } else {
        place_unit(
            place_units(st, units.drop_last(), width),
            units.last(),
            (units.len() - 1) as nat,
            width,
        )
    }
}

/// The layout before any unit: one empty line, no cursor.
pub open spec fn initial_layout() -> LayoutView {
    LayoutView {
        flow: Flow { lines: seq![Seq::empty()], used: 0 },
        cursor: None,
        placed: Seq::empty(),
    }
}

/// The frame of the units laid out in `width` columns: all units placed in
/// order, then the trailing empty lines dropped.
pub open spec fn laid_out_lines(units: Seq<UnitView>, width: nat) -> Seq<Seq<SpanView>> {
    trimmed(place_units(initial_layout(), units, width).flow.lines)
}

/// The cursor of the units laid out in `width` columns, the column held at
/// `u16::MAX`.
pub open spec fn laid_out_cursor(units: Seq<UnitView>, width: nat) -> Option<(u16, usize)> {
    match place_units(initial_layout(), units, width).cursor {
        Some((col, row)) => Some(
            (
                if col <= u16::MAX {
                    col as u16
                } else {
                    u16::MAX
                },
                row as usize,
            ),
        ),
        None => None,
    }
}

/// Where the units start when laid out in `width` columns.
pub open spec fn laid_out_places(units: Seq<UnitView>, width: nat) -> Seq<Placed> {
    place_units(initial_layout(), units, width).placed
}

/// Whether a flow has a line to write on, holds no empty span, and counts
/// its used columns within the machine's range.
pub open spec fn flow_ok(flow: Flow) -> bool {
    &&& flow.lines.len() >= 1
    &&& flow.used <= usize::MAX
    &&& forall|i: int| 0 <= i < flow.lines.len() ==> no_empty_span(#[trigger] flow.lines[i])
}

proof fn lemma_put_ok(flow: Flow, span: SpanView)
    requires
        flow_ok(flow),
        flow.used + columns(span.text) <= usize::MAX,
    ensures
        flow_ok(put(flow, span)),
        put(flow, span).lines.len() == flow.lines.len(),
{
    let next = put(flow, span);
    assert forall|i: int| 0 <= i < next.lines.len() implies no_empty_span(
        #[trigger] next.lines[i],
    ) by {
        if span.text.len() > 0 && i == flow.lines.len() - 1 {
            let line = flow.lines[i];
            assert(no_empty_span(line));
            assert forall|j: int| 0 <= j < next.lines[i].len() implies (
            #[trigger] next.lines[i][j]).text.len() > 0 by {
                if j < line.len() {
                    assert(next.lines[i][j] == line[j]);
                }
            }
        } else {
            assert(next.lines[i] == flow.lines[i]);
        }
    }
}

proof fn lemma_break_ok(flow: Flow)
    requires
        flow_ok(flow),
    ensures
        flow_ok(break_line(flow)),
        break_line(flow).lines.len() == flow.lines.len() + 1,
{
    let next = break_line(flow);
    assert forall|i: int| 0 <= i < next.lines.len() implies no_empty_span(
        #[trigger] next.lines[i],
    ) by {
        if i < flow.lines.len() {
            assert(next.lines[i] == flow.lines[i]);
        }
    }
}

/// Placing a span piece by piece keeps a flow in order and drops no line.
pub proof fn lemma_place_chunks_ok(flow: Flow, span: SpanView, width: nat)
    requires
        flow_ok(flow),
        width <= usize::MAX,
    ensures
        flow_ok(place_chunks(flow, span, width)),
        place_chunks(flow, span, width).lines.len() >= flow.lines.len(),
    decreases span.text.len(), flow.used,
{
    let room = remaining(flow, width);
    if columns(span.text) <= room {
        lemma_put_ok(flow, span);
    } else {
        let k = head_len(span.text, room);
        if k == 0 {
            if flow.used == 0 {
                lemma_put_ok(flow, span);
            } else {
                lemma_break_ok(flow);
                lemma_place_chunks_ok(break_line(flow), span, width);
            }
        } else {
            let head = SpanView { text: span.text.take(k as int), ..span };
            let tail = SpanView { text: span.text.skip(k as int), ..span };
            lemma_fitting_prefix(span.text, room);
            lemma_put_ok(flow, head);
            lemma_break_ok(put(flow, head));
            lemma_place_chunks_ok(break_line(put(flow, head)), tail, width);
        }
    }
}

/// Placing a span keeps a flow in order and drops no line.
pub proof fn lemma_place_span_ok(flow: Flow, span: SpanView, width: nat)
    requires
        flow_ok(flow),
        width <= usize::MAX,
    ensures
        flow_ok(place_span(flow, span, width)),
        place_span(flow, span, width).lines.len() >= flow.lines.len(),
{
    if columns(span.text) == 0 {
        if width > 0 {
            lemma_put_ok(flow, span);
            assert(place_span(flow, span, width) == put(flow, span));
        }
    } else if span.wrap == Wrap::No && columns(span.text) > remaining(flow, width) && flow.used
        > 0 {
        lemma_break_ok(flow);
        lemma_place_chunks_ok(break_line(flow), span, width);
    } else {
        lemma_place_chunks_ok(flow, span, width);
    }
}

/// Placing spans keeps a flow in order and drops no line.
pub proof fn lemma_place_spans_ok(flow: Flow, spans: Seq<SpanView>, width: nat)
    requires
        flow_ok(flow),
        width <= usize::MAX,
    ensures
        flow_ok(place_spans(flow, spans, width)),
        place_spans(flow, spans, width).lines.len() >= flow.lines.len(),
    decreases spans.len(),
{
    if spans.len() > 0 {
        lemma_place_spans_ok(flow, spans.drop_last(), width);
        lemma_place_span_ok(place_spans(flow, spans.drop_last(), width), spans.last(), width);
    }
}

/// Placing units keeps the flow in order.
pub proof fn lemma_place_units_ok(st: LayoutView, units: Seq<UnitView>, width: nat)
    requires
        flow_ok(st.flow),
        width <= usize::MAX,
    ensures
        flow_ok(place_units(st, units, width).flow),
        place_units(st, units, width).placed.len() == st.placed.len() + units.len(),
    decreases units.len(),
{
    if units.len() > 0 {
        lemma_place_units_ok(st, units.drop_last(), width);
        let before = place_units(st, units.drop_last(), width);
        let start = unit_start(before.flow, units.last().display);
        if start != before.flow {
            lemma_break_ok(before.flow);
        }
        lemma_place_spans_ok(start, units.last().spans, width);
    }
}

/// A laid-out frame has at least one line, and no line of it holds a span
/// with empty text.
pub proof fn lemma_laid_out_lines(units: Seq<UnitView>, width: nat)
    requires
        width <= usize::MAX,
    ensures
        laid_out_lines(units, width).len() >= 1,
        forall|i: int|
            0 <= i < laid_out_lines(units, width).len() ==> no_empty_span(
                #[trigger] laid_out_lines(units, width)[i],
            ),
{
    let st = initial_layout();
    assert(flow_ok(st.flow)) by {
        assert forall|i: int| 0 <= i < st.flow.lines.len() implies no_empty_span(
            #[trigger] st.flow.lines[i],
        ) by {}
    }
    lemma_place_units_ok(st, units, width);
    let lines = place_units(st, units, width).flow.lines;
    lemma_trimmed(lines);
    let t = trimmed(lines);
    assert forall|i: int| 0 <= i < t.len() implies no_empty_span(#[trigger] t[i]) by {
        if t.last().len() > 0 {
            assert(t[i] == lines[i]);
        }
    }
}

fn place_chunks_exec(frame: &mut Frame, used: &mut usize, span: &Span, width: usize)
    requires
        flow_ok(Flow { lines: old(frame)@, used: *old(used) as nat }),
    ensures
        (Flow { lines: final(frame)@, used: *final(used) as nat }) == place_chunks(
            Flow { lines: old(frame)@, used: *old(used) as nat },
            span@,
            width as nat,
        ),
{
    let ghost target = place_chunks(
        Flow { lines: old(frame)@, used: *old(used) as nat },
        span@,
        width as nat,
    );
    proof {
        lemma_place_chunks_ok(
            Flow { lines: old(frame)@, used: *old(used) as nat },
            span@,
            width as nat,
        );
    }
    let mut cur = span.clone();
    let mut done = false;
    while !done
        invariant
            flow_ok(Flow { lines: frame@, used: *used as nat }),
            flow_ok(target),
            !done ==> place_chunks(Flow { lines: frame@, used: *used as nat }, cur@, width as nat)
                == target,
            done ==> (Flow { lines: frame@, used: *used as nat }) == target,
        decreases
                (if done {
                    0int
                } else {
                    1int
                }),
                cur@.text.len(),
                *used,
    {
        let ghost flow = Flow { lines: frame@, used: *used as nat };
        let room: usize = if width > *used {
            width - *used
        } else {
            0
        };
        let w = cur.width();
        if w <= room {
            frame.push_span(cur.clone());
            *used = *used + w;
            done = true;
        } else {
            let (head, tail) = cur.split_at_width(room);
            let k = head.text().unicode_len();
            proof {
                lemma_fitting_prefix(cur@.text, room as nat);
            }
            if k == 0 {
                if *used == 0 {
                    frame.push_span(cur.clone());
                    *used = w;
                    done = true;
                } else {
                    frame.new_line();
                    *used = 0;
                    proof {
                        lemma_break_ok(flow);
                    }
                }
            } else {
                match tail {
                    Some(t) => {
                        assert(k < cur@.text.len());
                        proof {
                            lemma_put_ok(flow, head@);
                            lemma_break_ok(put(flow, head@));
                        }
                        frame.push_span(head);
                        frame.new_line();
                        *used = 0;
                        cur = t;
                    },
                    None => {
                        assert(false);
                    },
                }
            }
        }
    }
}

fn place_span_exec(frame: &mut Frame, used: &mut usize, span: &Span, width: usize)
    requires
        flow_ok(Flow { lines: old(frame)@, used: *old(used) as nat }),
    ensures
        (Flow { lines: final(frame)@, used: *final(used) as nat }) == place_span(
            Flow { lines: old(frame)@, used: *old(used) as nat },
            span@,
            width as nat,
        ),
        flow_ok(Flow { lines: final(frame)@, used: *final(used) as nat }),
        final(frame)@.len() >= old(frame)@.len(),
{
    proof {
        lemma_place_span_ok(
            Flow { lines: old(frame)@, used: *old(used) as nat },
            span@,
            width as nat,
        );
    }
    let w = span.width();
    if w == 0 {
        if width > 0 {
            frame.push_span(span.clone());
        }
    } else {
        let room: usize = if width > *used {
            width - *used
        } else {
            0
        };
        if span.wrap() == Wrap::No && w > room && *used > 0 {
            proof {
                lemma_break_ok(Flow { lines: frame@, used: *used as nat });
            }
            frame.new_line();
            *used = 0;
        }
        place_chunks_exec(frame, used, span, width);
    }
}

/// The layout engine. It lays units out in the width of the terminal less a
/// margin.
#[derive(Debug, Clone, Copy)]
pub struct Layout {
    margin: usize,
}

impl Layout {
    /// The margin in columns.
    pub closed spec fn spec_margin(&self) -> nat {
        self.margin as nat
    }

    /// The columns that the layout fills in a terminal of `width` columns.
    pub open spec fn budget(&self, width: u16) -> nat {
        if width as nat > self.spec_margin() {
            (width as nat - self.spec_margin()) as nat
        } else {
            0
        }
    }

    /// An engine with a margin of two columns.
    pub fn new() -> (r: Self)
        ensures
            r.spec_margin() == 2,
    {
        Layout { margin: 2 }
    }

    /// Sets the margin.
    pub fn with_margin(self, margin: usize) -> (r: Self)
        ensures
            r.spec_margin() == margin,
    {
        Layout { margin }
    }

    /// The margin in columns.
    pub fn margin(&self) -> (m: usize)
        ensures
            m == self.spec_margin(),
    {
        self.margin
    }

    /// Lays the units out: the frame, wrapped to the width less the margin
    /// and without trailing empty lines; the cursor of the unit that reports
    /// one; and the place where each unit starts.
    pub fn layout(&self, units: &[RenderUnit], width: u16) -> (r: (RenderContext, Vec<Placed>))
        ensures
            self.lays_out(
                unit_views(units@),
                width,
                Outcome { lines: r.0.frame@, cursor: r.0.cursor_position, places: r.1@ },
            ),
            r.0.frame@.len() >= 1,
            forall|i: int| 0 <= i < r.0.frame@.len() ==> no_empty_span(#[trigger] r.0.frame@[i]),
            r.1@.len() == units@.len(),
    {
        let ghost views = unit_views(units@);
        let budget: usize = if width as usize > self.margin {
            width as usize - self.margin
        } else {
            0
        };
        let mut frame = Frame::new();
        frame.ensure_line();
        let mut used: usize = 0;
        let mut cursor: Option<(u16, usize)> = None;
        let ghost mut spec_cursor: Option<(nat, nat)> = None;
        let mut placed: Vec<Placed> = Vec::new();
        let mut i: usize = 0;
        proof {
            assert(views.take(0) =~= Seq::<UnitView>::empty());
            assert(flow_ok(initial_layout().flow)) by {
                assert forall|j: int|
                    0 <= j < initial_layout().flow.lines.len() implies no_empty_span(
                    #[trigger] initial_layout().flow.lines[j],
                ) by {}
            }
        }
        while i < units.len()
            invariant
                i <= units.len(),
                views == unit_views(units@),
                budget as nat == self.budget(width),
                flow_ok(Flow { lines: frame@, used: used as nat }),
                (LayoutView {
                    flow: Flow { lines: frame@, used: used as nat },
                    cursor: spec_cursor,
                    placed: placed@,
                }) == place_units(initial_layout(), views.take(i as int), budget as nat),
                cursor == match spec_cursor {
                    Some((col, row)) => Some(
                        (
                            if col <= u16::MAX {
                                col as u16
                            } else {
                                u16::MAX
                            },
                            row as usize,
                        ),
                    ),
                    None => None,
                },
            decreases units.len() - i,
        {
            let unit = &units[i];
            let ghost before = LayoutView {
                flow: Flow { lines: frame@, used: used as nat },
                cursor: spec_cursor,
                placed: placed@,
            };
            proof {
                assert(views.take(i + 1).drop_last() =~= views.take(i as int));
                assert(views.take(i + 1).last() == unit@);
                lemma_break_ok(before.flow);
            }
            if unit.display == Display::Block && used > 0 {
                frame.new_line();
                used = 0;
            }
            let ghost start = Flow { lines: frame@, used: used as nat };
            let row: usize = frame.len() - 1;
            placed.push(Placed { index: i, x: used, y: row });
            match unit.cursor_offset {
                Some(offset) => {
                    let col: u16 = if used > 65535 || offset > 65535 - used {
                        65535
                    } else {
                        (used + offset) as u16
                    };
                    cursor = Some((col, row));
                    proof {
                        spec_cursor = Some((used as nat + offset as nat, row as nat));
                    }
                },
                None => {},
            }
            let mut j: usize = 0;
            proof {
                assert(unit@.spans.take(0) =~= Seq::<SpanView>::empty());
            }
            while j < unit.spans.len()
                invariant
                    j <= unit.spans.len(),
                    flow_ok(Flow { lines: frame@, used: used as nat }),
                    (Flow { lines: frame@, used: used as nat }) == place_spans(
                        start,
                        unit@.spans.take(j as int),
                        budget as nat,
                    ),
                decreases unit.spans.len() - j,
            {
                proof {
                    assert(unit@.spans.take(j + 1).drop_last() =~= unit@.spans.take(j as int));
                    assert(unit@.spans.take(j + 1).last() == unit.spans@[j as int]@);
                }
                place_span_exec(&mut frame, &mut used, &unit.spans[j], budget);
                j += 1;
            }
            proof {
                assert(unit@.spans.take(j as int) =~= unit@.spans);
            }
            i += 1;
        }
        proof {
            assert(views.take(i as int) =~= views);
            lemma_laid_out_lines(views, budget as nat);
            lemma_place_units_ok(initial_layout(), views, budget as nat);
        }
        frame.trim_trailing_empty();
        (RenderContext { frame, cursor_position: cursor }, placed)
    }
}

impl Default for Layout {
    fn default() -> (r: Self)
        ensures
            r.spec_margin() == 2,
    {
        Layout::new()
    }
}

/// What a layout hands back: the lines of the frame, the cursor and the
/// places of the units.
pub struct Outcome {
    pub lines: Seq<Seq<SpanView>>,
    pub cursor: Option<(u16, usize)>,
    pub places: Seq<Placed>,
}

impl Layout {
    /// Whether `outcome` is what this engine hands back for the units in a
    /// terminal of the given width.
    pub open spec fn lays_out(&self, units: Seq<UnitView>, width: u16, outcome: Outcome) -> bool {
        &&& outcome.lines == laid_out_lines(units, self.budget(width))
        &&& outcome.cursor == laid_out_cursor(units, self.budget(width))
        &&& outcome.places == laid_out_places(units, self.budget(width))
    }
}

/// Layout has no hidden state: whatever the engine hands back for the same
/// units in the same width, it is the same frame, the same cursor and the
/// same places.
pub proof fn lemma_layout_repeatable(
    layout: Layout,
    units: Seq<UnitView>,
    width: u16,
    first: Outcome,
    second: Outcome,
)
    requires
        layout.lays_out(units, width, first),
        layout.lays_out(units, width, second),
    ensures
        first == second,
{
}

/// The text of lines, one line behind the other.
pub open spec fn lines_text(lines: Seq<Seq<SpanView>>) -> Seq<char>
    decreases lines.len(),
{
    if lines.len() == 0 {
        Seq::empty()
    } else {
        lines_text(lines.drop_last()) + line_text(lines.last())
    }
}

/// The text of units: the texts of their spans in order.
pub open spec fn units_text(units: Seq<UnitView>) -> Seq<char>
    decreases units.len(),
{
    if units.len() == 0 {
        Seq::empty()
    } else {
        units_text(units.drop_last()) + line_text(units.last().spans)
    }
}

/// A single empty line has no text.
pub proof fn lemma_empty_line_text()
    ensures
        lines_text(seq![Seq::<SpanView>::empty()]) == Seq::<char>::empty(),
{
    let one = seq![Seq::<SpanView>::empty()];
    assert(one.drop_last() =~= Seq::<Seq<SpanView>>::empty());
    assert(lines_text(one.drop_last()) =~= Seq::<char>::empty());
    assert(line_text(one.last()) =~= Seq::<char>::empty());
    assert(lines_text(one) =~= Seq::<char>::empty());
}

/// A span appended to the last line adds its text to the text of the lines.
pub proof fn lemma_appended_text(lines: Seq<Seq<SpanView>>, span: SpanView)
    ensures
        lines_text(appended(lines, span)) == lines_text(lines) + span.text,
{
    let base = with_line(lines);
    if lines.len() == 0 {
        lemma_empty_line_text();
    }
    if span.text.len() > 0 {
        let last = base.last().push(span);
        let after = base.update(base.len() - 1, last);
        assert(after.drop_last() =~= base.drop_last());
        assert(last.drop_last() =~= base.last());
        assert(lines_text(after) =~= lines_text(base) + span.text);
    } else {
        assert(lines_text(base) + span.text =~= lines_text(base));
    }
}

/// A new line adds nothing to the text of the lines.
pub proof fn lemma_break_text(lines: Seq<Seq<SpanView>>)
    ensures
        lines_text(lines.push(Seq::empty())) == lines_text(lines),
{
    let after = lines.push(Seq::<SpanView>::empty());
    assert(after.drop_last() =~= lines);
    assert(lines_text(after) =~= lines_text(lines));
}

/// Placing a span piece by piece adds its text to the text of the lines,
/// whole and in order.
pub proof fn lemma_place_chunks_text(flow: Flow, span: SpanView, width: nat)
    ensures
        lines_text(place_chunks(flow, span, width).lines) == lines_text(flow.lines) + span.text,
    decreases span.text.len(), flow.used,
{
    let room = remaining(flow, width);
    if columns(span.text) <= room {
        lemma_appended_text(flow.lines, span);
    } else {
        let k = head_len(span.text, room);
        if k == 0 {
            if flow.used == 0 {
                lemma_appended_text(flow.lines, span);
            } else {
                lemma_break_text(flow.lines);
                lemma_place_chunks_text(break_line(flow), span, width);
            }
        } else {
            lemma_fitting_prefix(span.text, room);
            let head = SpanView { text: span.text.take(k as int), ..span };
            let tail = SpanView { text: span.text.skip(k as int), ..span };
            lemma_appended_text(flow.lines, head);
            lemma_break_text(put(flow, head).lines);
            lemma_place_chunks_text(break_line(put(flow, head)), tail, width);
            assert(head.text + tail.text =~= span.text);
            assert(lines_text(flow.lines) + head.text + tail.text =~= lines_text(flow.lines) + (
            head.text + tail.text));
        }
    }
}

/// Placing a span adds its text to the text of the lines, but for a span
/// without width in a frame without width, which is dropped.
pub proof fn lemma_place_span_text(flow: Flow, span: SpanView, width: nat)
    ensures
        lines_text(place_span(flow, span, width).lines) == if columns(span.text) == 0 && width
            == 0 {
            lines_text(flow.lines)
        } else {
            lines_text(flow.lines) + span.text
        },
{
    if columns(span.text) == 0 {
        if width > 0 {
            lemma_appended_text(flow.lines, span);
        }
    } else if span.wrap == Wrap::No && columns(span.text) > remaining(flow, width) && flow.used
        > 0 {
        lemma_break_text(flow.lines);
        lemma_place_chunks_text(break_line(flow), span, width);
    } else {
        lemma_place_chunks_text(flow, span, width);
    }
}

/// In a frame with width, placing spans adds their texts to the text of the
/// lines.
pub proof fn lemma_place_spans_text(flow: Flow, spans: Seq<SpanView>, width: nat)
    requires
        width > 0,
    ensures
        lines_text(place_spans(flow, spans, width).lines) == lines_text(flow.lines) + line_text(
            spans,
        ),
    decreases spans.len(),
{
    if spans.len() > 0 {
        lemma_place_spans_text(flow, spans.drop_last(), width);
        lemma_place_span_text(place_spans(flow, spans.drop_last(), width), spans.last(), width);
        assert(lines_text(flow.lines) + line_text(spans.drop_last()) + spans.last().text
            =~= lines_text(flow.lines) + line_text(spans));
    } else {
        assert(lines_text(flow.lines) + line_text(spans) =~= lines_text(flow.lines));
    }
}

/// In a frame with width, placing units adds their texts to the text of the
/// lines.
pub proof fn lemma_place_units_text(st: LayoutView, units: Seq<UnitView>, width: nat)
    requires
        width > 0,
    ensures
        lines_text(place_units(st, units, width).flow.lines) == lines_text(st.flow.lines)
            + units_text(units),
    decreases units.len(),
{
    if units.len() > 0 {
        lemma_place_units_text(st, units.drop_last(), width);
        let before = place_units(st, units.drop_last(), width);
        let start = unit_start(before.flow, units.last().display);
        if start != before.flow {
            lemma_break_text(before.flow.lines);
        }
        lemma_place_spans_text(start, units.last().spans, width);
        assert(lines_text(st.flow.lines) + units_text(units.drop_last()) + line_text(
            units.last().spans,
        ) =~= lines_text(st.flow.lines) + units_text(units));
    } else {
        assert(lines_text(st.flow.lines) + units_text(units) =~= lines_text(st.flow.lines));
    }
}

/// Trimming takes no text away.
pub proof fn lemma_trimmed_text(lines: Seq<Seq<SpanView>>)
    ensures
        lines_text(trimmed(lines)) == lines_text(lines),
    decreases lines.len(),
{
    if lines.len() == 0 {
        lemma_empty_line_text();
    } else if lines.last().len() == 0 {
        lemma_trimmed_text(lines.drop_last());
        assert(lines_text(lines) =~= lines_text(lines.drop_last()));
    }
}

/// Layout loses no text: in a frame with width, the lines of the frame
/// spell the texts of all spans of all units, whole and in order.
pub proof fn lemma_layout_keeps_text(units: Seq<UnitView>, width: nat)
    requires
        width > 0,
    ensures
        lines_text(laid_out_lines(units, width)) == units_text(units),
{
    let st = initial_layout();
    lemma_place_units_text(st, units, width);
    lemma_trimmed_text(place_units(st, units, width).flow.lines);
    lemma_empty_line_text();
    assert(lines_text(st.flow.lines) + units_text(units) =~= units_text(units));
}

/// The number of spans of a line that have width.
pub open spec fn wide_spans(line: Seq<SpanView>) -> nat
    decreases line.len(),
{
    if line.len() == 0 {
        0
    } else {
        wide_spans(line.drop_last()) + if text_width(line.last().text) > 0 {
            1nat
        } else {
            0nat
        }
    }
}

/// Whether a line keeps to the width: it is no wider, or it holds a single
/// span with width, which was too wide for any line.
pub open spec fn line_fits(line: Seq<SpanView>, width: nat) -> bool {
    line_width(line) <= width || wide_spans(line) <= 1
}

/// Whether a flow keeps to the width: every finished line does, and the
/// current line is as wide as the columns used and no wider than the
/// width, or holds a single span with width that overflows it.
pub open spec fn flow_fits(flow: Flow, width: nat) -> bool {
    &&& flow.lines.len() >= 1
    &&& forall|i: int| 0 <= i < flow.lines.len() - 1 ==> line_fits(#[trigger] flow.lines[i], width)
    &&& (line_width(flow.lines.last()) == flow.used && flow.used <= width) || (wide_spans(
        flow.lines.last(),
    ) == 1 && flow.used > width)
}

/// A line without width holds no span with width.
pub proof fn lemma_no_width_no_wide(line: Seq<SpanView>)
    requires
        line_width(line) == 0,
    ensures
        wide_spans(line) == 0,
    decreases line.len(),
{
    if line.len() > 0 {
        lemma_no_width_no_wide(line.drop_last());
    }
}

proof fn lemma_put_fits(flow: Flow, span: SpanView, width: nat)
    requires
        flow_fits(flow, width),
        width < usize::MAX,
        columns(span.text) <= remaining(flow, width) || (flow.used == 0 && columns(span.text)
            > width),
    ensures
        flow_fits(put(flow, span), width),
{
    let next = put(flow, span);
    let last = flow.lines.last();
    assert forall|i: int| 0 <= i < next.lines.len() - 1 implies line_fits(
        #[trigger] next.lines[i],
        width,
    ) by {
        assert(next.lines[i] == flow.lines[i]);
    }
    if span.text.len() > 0 {
        let line = last.push(span);
        assert(next.lines.last() == line);
        assert(line.drop_last() =~= last);
        if flow.used == 0 && columns(span.text) > width {
            lemma_no_width_no_wide(last);
        }
    } else {
        assert(next.lines.last() == last);
        assert(text_width(span.text) == 0);
    }
}

proof fn lemma_break_fits(flow: Flow, width: nat)
    requires
        flow_fits(flow, width),
    ensures
        flow_fits(break_line(flow), width),
{
    let next = break_line(flow);
    assert forall|i: int| 0 <= i < next.lines.len() - 1 implies line_fits(
        #[trigger] next.lines[i],
        width,
    ) by {
        assert(next.lines[i] == flow.lines[i]);
    }
    assert(next.lines.last() =~= Seq::<SpanView>::empty());
}

/// Placing a span piece by piece keeps a flow to the width.
pub proof fn lemma_place_chunks_fits(flow: Flow, span: SpanView, width: nat)
    requires
        flow_fits(flow, width),
        width < usize::MAX,
    ensures
        flow_fits(place_chunks(flow, span, width), width),
    decreases span.text.len(), flow.used,
{
    let room = remaining(flow, width);
    if columns(span.text) <= room {
        lemma_put_fits(flow, span, width);
    } else {
        let k = head_len(span.text, room);
        if k == 0 {
            if flow.used == 0 {
                lemma_put_fits(flow, span, width);
            } else {
                lemma_break_fits(flow, width);
                lemma_place_chunks_fits(break_line(flow), span, width);
            }
        } else {
            lemma_fitting_prefix(span.text, room);
            let head = SpanView { text: span.text.take(k as int), ..span };
            let tail = SpanView { text: span.text.skip(k as int), ..span };
            lemma_put_fits(flow, head, width);
            lemma_break_fits(put(flow, head), width);
            lemma_place_chunks_fits(break_line(put(flow, head)), tail, width);
        }
    }
}

/// Placing a span keeps a flow to the width.
pub proof fn lemma_place_span_fits(flow: Flow, span: SpanView, width: nat)
    requires
        flow_fits(flow, width),
        width < usize::MAX,
    ensures
        flow_fits(place_span(flow, span, width), width),
{
    if columns(span.text) == 0 {
        if width > 0 {
            lemma_put_fits(flow, span, width);
            assert(place_span(flow, span, width) == put(flow, span));
        }
    } else if span.wrap == Wrap::No && columns(span.text) > remaining(flow, width) && flow.used
        > 0 {
        lemma_break_fits(flow, width);
        lemma_place_chunks_fits(break_line(flow), span, width);
    } else {
        lemma_place_chunks_fits(flow, span, width);
    }
}

/// Placing spans keeps a flow to the width.
pub proof fn lemma_place_spans_fits(flow: Flow, spans: Seq<SpanView>, width: nat)
    requires
        flow_fits(flow, width),
        width < usize::MAX,
    ensures
        flow_fits(place_spans(flow, spans, width), width),
    decreases spans.len(),
{
    if spans.len() > 0 {
        lemma_place_spans_fits(flow, spans.drop_last(), width);
        lemma_place_span_fits(place_spans(flow, spans.drop_last(), width), spans.last(), width);
    }
}

/// Placing units keeps the flow to the width.
pub proof fn lemma_place_units_fits(st: LayoutView, units: Seq<UnitView>, width: nat)
    requires
        flow_fits(st.flow, width),
        width < usize::MAX,
    ensures
        flow_fits(place_units(st, units, width).flow, width),
    decreases units.len(),
{
    if units.len() > 0 {
        lemma_place_units_fits(st, units.drop_last(), width);
        let before = place_units(st, units.drop_last(), width);
        let start = unit_start(before.flow, units.last().display);
        if start != before.flow {
            lemma_break_fits(before.flow, width);
        }
        lemma_place_spans_fits(start, units.last().spans, width);
    }
}

/// Layout keeps to the width: every line of the frame is at most as wide
/// as the width, but for a line that holds a single span with width of
/// which not even the first character fits.
pub proof fn lemma_layout_fits(units: Seq<UnitView>, width: nat)
    requires
        width < usize::MAX,
    ensures
        forall|i: int|
            0 <= i < laid_out_lines(units, width).len() ==> line_fits(
                #[trigger] laid_out_lines(units, width)[i],
                width,
            ),
{
    let st = initial_layout();
    assert(flow_fits(st.flow, width)) by {
        assert(st.flow.lines.last() =~= Seq::<SpanView>::empty());
    }
    lemma_place_units_fits(st, units, width);
    let lines = place_units(st, units, width).flow.lines;
    lemma_trimmed(lines);
    let t = trimmed(lines);
    assert forall|i: int| 0 <= i < t.len() implies line_fits(#[trigger] t[i], width) by {
        if t.last().len() > 0 {
            assert(t[i] == lines[i]);
            if i == lines.len() - 1 {
                assert(lines[i] == lines.last());
            }
        } else {
            assert(t[i] =~= Seq::<SpanView>::empty());
        }
    }
}

} // verus!
