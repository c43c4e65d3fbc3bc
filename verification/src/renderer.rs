//! The incremental renderer: it owns a block of lines of the terminal that
//! begins at an anchor row, and plans the terminal commands that paint a
//! frame into that block.

use crate::render_context::RenderContext;
use vstd::prelude::*;

verus! {

/// One command for the terminal.
#[derive(Clone, Copy, Debug, PartialEq, Eq, Structural)]
pub enum TermOp {
    /// Hide the cursor.
    HideCursor,
    /// Show the cursor.
    ShowCursor,
    /// Move the cursor to a column and a row.
    MoveTo(u16, u16),
    /// Clear the line of the cursor.
    ClearLine,
    /// Write a line feed.
    NewLine,
    /// Write the line of the frame with this index.
    WriteLine(usize),
    /// Flush the output.
    Flush,
}

/// The row of the line with index `index` in a block that begins at the row
/// `start`; no row lies beyond the last row that the terminal can address.
pub open spec fn row_of(start: u16, index: nat) -> u16 {
    if start + index <= u16::MAX {
        (start + index) as u16
    } else {
        u16::MAX
    }
}

/// The commands that reserve `lines` lines below the row of the cursor: a
/// line feed for each line makes the terminal scroll where it must.
pub open spec fn reserve_ops(row: u16, lines: nat) -> Seq<TermOp> {
    seq![TermOp::HideCursor, TermOp::MoveTo(0, row)] + Seq::new(lines, |i: int| TermOp::NewLine)
        + seq![TermOp::Flush]
}

/// The commands that write the first `n` lines of the frame: for each line
/// a move to its row, a clearing of that row and the line itself.
pub open spec fn line_ops(start: u16, n: nat) -> Seq<TermOp>
    decreases n,
{
    if n == 0 {
        Seq::empty()
    } else {
        line_ops(start, (n - 1) as nat) + seq![
            TermOp::MoveTo(0, row_of(start, (n - 1) as nat)),
            TermOp::ClearLine,
            TermOp::WriteLine((n - 1) as usize),
        ]
    }
}

/// The commands that clear the stale lines with the indices from `from` up
/// to, not including, `to`: for each a move to its row and a clearing.
pub open spec fn stale_ops(start: u16, from: nat, to: nat) -> Seq<TermOp>
    decreases to,
{
    if to <= from {
        Seq::empty()
    } else {
        stale_ops(start, from, (to - 1) as nat) + seq![
            TermOp::MoveTo(0, row_of(start, (to - 1) as nat)),
            TermOp::ClearLine,
        ]
    }
}

/// The command that places the cursor: at its column in the row of its
/// line, or at the start of the block where there is no cursor.
pub open spec fn cursor_op(start: u16, cursor: Option<(u16, usize)>) -> TermOp {
    match cursor {
        Some((col, line)) => TermOp::MoveTo(col, row_of(start, line as nat)),
        None => TermOp::MoveTo(0, start),
    }
}

/// The commands of one paint of a frame of `lines` lines into a block that
/// held `previous` lines: the cursor is hidden, every line of the frame is
/// rewritten, the lines that the frame no longer has are cleared, and the
/// cursor is placed and shown again.
pub open spec fn paint_ops(
    start: u16,
    previous: nat,
    lines: nat,
    cursor: Option<(u16, usize)>,
) -> Seq<TermOp> {
    seq![TermOp::HideCursor] + line_ops(start, lines) + stale_ops(start, lines, previous) + seq![
        cursor_op(start, cursor),
        TermOp::ShowCursor,
        TermOp::Flush,
    ]
}

/// The row at which a block of `lines` lines begins when it ends just above
/// the row `end_row`.
pub open spec fn anchor_row(end_row: u16, lines: nat) -> u16 {
    if lines <= end_row {
        (end_row - lines) as u16
    } else {
        0
    }
}

/// A paint clears every stale line: for each index from the length of the
/// new frame up to the length of the frame before, the commands hold a move
/// to the row of that line with a clearing right behind it.
pub proof fn lemma_stale_lines_cleared(start: u16, from: nat, to: nat, index: nat)
    requires
        from <= index < to,
    ensures
        stale_ops(start, from, to).len() == 2 * (to - from),
        stale_ops(start, from, to)[2 * (index - from)] == TermOp::MoveTo(0, row_of(start, index)),
        stale_ops(start, from, to)[2 * (index - from) + 1] == TermOp::ClearLine,
    decreases to,
{
    lemma_stale_length(start, from, to);
    lemma_stale_length(start, from, (to - 1) as nat);
    if index < to - 1 {
        lemma_stale_lines_cleared(start, from, (to - 1) as nat, index);
    }
}

/// Two commands for each stale line.
pub proof fn lemma_stale_length(start: u16, from: nat, to: nat)
    ensures
        stale_ops(start, from, to).len() == if to > from {
            2 * (to - from)
        } else {
            0
        },
    decreases to,
{
    if to > from {
        lemma_stale_length(start, from, (to - 1) as nat);
    }
}

/// A paint of a frame that is no shorter than the one before clears no line
/// outside the frame.
pub proof fn lemma_no_stale_lines(start: u16, from: nat, to: nat)
    requires
        to <= from,
    ensures
        stale_ops(start, from, to) == Seq::<TermOp>::empty(),
{
}

/// The incremental renderer.
#[derive(Clone, Copy, Debug)]
pub struct Renderer {
    start_row: Option<u16>,
    num_lines: usize,
}

impl Renderer {
    /// The anchor row: the row where the block of the renderer begins.
    pub closed spec fn spec_start_row(&self) -> Option<u16> {
        self.start_row
    }

    /// The number of lines of the frame painted last.
    pub closed spec fn spec_num_lines(&self) -> nat {
        self.num_lines as nat
    }

    /// A renderer without an anchor.
    pub fn new() -> (r: Self)
        ensures
            r.spec_start_row() is None,
            r.spec_num_lines() == 0,
    {
        Renderer { start_row: None, num_lines: 0 }
    }

    /// The anchor row, once it is known.
    pub fn start_row(&self) -> (r: Option<u16>)
        ensures
            r == self.spec_start_row(),
    {
        self.start_row
    }

    /// The number of lines of the frame painted last.
    pub fn num_lines(&self) -> (r: usize)
        ensures
            r == self.spec_num_lines(),
    {
        self.num_lines
    }

    /// The row of the line with the given index in a block that begins at
    /// `start`.
    fn row_at(start: u16, index: usize) -> (r: u16)
        ensures
            r == row_of(start, index as nat),
    {
        if index > (u16::MAX - start) as usize {
            u16::MAX
        } else {
            start + index as u16
        }
    }

    /// The first part of the first render: the commands that reserve room
    /// for the frame below the row of the cursor.
    pub fn reserve(&self, cursor_row: u16, lines: usize) -> (ops: Vec<TermOp>)
        ensures
            ops@ == reserve_ops(cursor_row, lines as nat),
    {
        let mut ops: Vec<TermOp> = Vec::new();
        ops.push(TermOp::HideCursor);
        ops.push(TermOp::MoveTo(0, cursor_row));
        let mut i: usize = 0;
        while i < lines
            invariant
                i <= lines,
                ops@ == seq![TermOp::HideCursor, TermOp::MoveTo(0, cursor_row)] + Seq::new(
                    i as nat,
                    |k: int| TermOp::NewLine,
                ),
            decreases lines - i,
        {
            ops.push(TermOp::NewLine);
            i += 1;
            assert(ops@ =~= seq![TermOp::HideCursor, TermOp::MoveTo(0, cursor_row)] + Seq::new(
                i as nat,
                |k: int| TermOp::NewLine,
            ));
        }
        ops.push(TermOp::Flush);
        assert(ops@ =~= reserve_ops(cursor_row, lines as nat));
        ops
    }

    /// The second part of the first render: with room reserved and the
    /// cursor in the row `end_row` just below it, the block begins `lines`
    /// rows above.
    pub fn anchor(&mut self, end_row: u16, lines: usize)
        ensures
            final(self).spec_start_row() == Some(anchor_row(end_row, lines as nat)),
            final(self).spec_num_lines() == lines,
    {
        let start: u16 = if lines <= end_row as usize {
            end_row - lines as u16
        } else {
            0
        };
        self.start_row = Some(start);
        self.num_lines = lines;
    }

    /// Sets the anchor row, after the block has moved on the terminal.
    pub fn set_start_row(&mut self, row: u16)
        ensures
            final(self).spec_start_row() == Some(row),
            final(self).spec_num_lines() == old(self).spec_num_lines(),
    {
        self.start_row = Some(row);
    }

    /// Plans the paint of a frame into the block. Without an anchor there
    /// is nothing to paint into, and nothing changes.
    pub fn render(&mut self, ctx: &RenderContext) -> (ops: Vec<TermOp>)
        ensures
            old(self).spec_start_row() is None ==> ops@ == Seq::<TermOp>::empty() && *final(self)
                == *old(self),
            old(self).spec_start_row() matches Some(start) ==> ops@ == paint_ops(
                start,
                old(self).spec_num_lines(),
                ctx.frame@.len(),
                ctx.cursor_position,
            ) && final(self).spec_start_row() == Some(start) && final(self).spec_num_lines()
                == ctx.frame@.len(),
    {
        let start = match self.start_row {
            Some(start) => start,
            None => {
                return Vec::new();
            },
        };
        let lines = ctx.frame.len();
        let previous = self.num_lines;
        let mut ops: Vec<TermOp> = Vec::new();
        ops.push(TermOp::HideCursor);
        let mut i: usize = 0;
        while i < lines
            invariant
                i <= lines,
                ops@ == seq![TermOp::HideCursor] + line_ops(start, i as nat),
            decreases lines - i,
        {
            ops.push(TermOp::MoveTo(0, Renderer::row_at(start, i)));
            ops.push(TermOp::ClearLine);
            ops.push(TermOp::WriteLine(i));
            i += 1;
            assert(ops@ =~= seq![TermOp::HideCursor] + line_ops(start, i as nat));
        }
        let ghost written = ops@;
        while i < previous
            invariant
                lines <= i,
                i <= previous || previous <= lines,
                previous <= lines ==> i == lines,
                written == seq![TermOp::HideCursor] + line_ops(start, lines as nat),
                ops@ == written + stale_ops(start, lines as nat, i as nat),
            decreases previous - i,
        {
            ops.push(TermOp::MoveTo(0, Renderer::row_at(start, i)));
            ops.push(TermOp::ClearLine);
            i += 1;
            assert(ops@ =~= written + stale_ops(start, lines as nat, i as nat));
        }
        proof {
            if previous <= lines {
                assert(stale_ops(start, lines as nat, previous as nat) =~= stale_ops(
                    start,
                    lines as nat,
                    i as nat,
                ));
            }
        }
        let target = match ctx.cursor_position {
            Some((col, line)) => TermOp::MoveTo(col, Renderer::row_at(start, line)),
            None => TermOp::MoveTo(0, start),
        };
        ops.push(target);
        ops.push(TermOp::ShowCursor);
        ops.push(TermOp::Flush);
        self.num_lines = lines;
        assert(ops@ =~= paint_ops(
            start,
            previous as nat,
            lines as nat,
            ctx.cursor_position,
        ));
        ops
    }

    /// The commands that move the cursor below the block, for the end of
    /// the run. Without an anchor there are none.
    pub fn move_to_end(&self) -> (ops: Vec<TermOp>)
        ensures
            ops@ == match self.spec_start_row() {
                Some(start) => seq![
                    TermOp::MoveTo(0, row_of(start, self.spec_num_lines())),
                    TermOp::Flush,
                ],
                None => Seq::empty(),
            },
    {
        let mut ops: Vec<TermOp> = Vec::new();
        match self.start_row {
            Some(start) => {
                ops.push(TermOp::MoveTo(0, Renderer::row_at(start, self.num_lines)));
                ops.push(TermOp::Flush);
            },
            None => {},
        }
        ops
    }
}

impl Default for Renderer {
    fn default() -> (r: Self)
        ensures
            r.spec_start_row() is None,
            r.spec_num_lines() == 0,
    {
        Renderer::new()
    }
}

} // verus!
