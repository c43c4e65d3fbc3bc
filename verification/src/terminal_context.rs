//! The state and the capabilities of the terminal that rendering asks for.

use vstd::prelude::*;

verus! {

/// The size of the terminal, the place of the cursor as column and row, and
/// whether the terminal shows colours.
#[derive(Clone, Copy, Debug)]
pub struct TerminalContext {
    width: u16,
    height: u16,
    cursor_pos: (u16, u16),
    supports_colors: bool,
}

impl TerminalContext {
    /// The width of the terminal in columns.
    pub closed spec fn spec_width(&self) -> u16 {
        self.width
    }

    /// The height of the terminal in rows.
    pub closed spec fn spec_height(&self) -> u16 {
        self.height
    }

    /// The place of the cursor as column and row.
    pub closed spec fn spec_cursor_pos(&self) -> (u16, u16) {
        self.cursor_pos
    }

    /// Whether the terminal shows colours.
    pub closed spec fn spec_supports_colors(&self) -> bool {
        self.supports_colors
    }

    /// The context of a terminal of the given size that shows colours, the
    /// cursor at the origin.
    pub fn with_size(width: u16, height: u16) -> (r: Self)
        ensures
            r.spec_width() == width,
            r.spec_height() == height,
            r.spec_cursor_pos() == (0u16, 0u16),
            r.spec_supports_colors(),
    {
        TerminalContext { width, height, cursor_pos: (0, 0), supports_colors: true }
    }

    /// Takes a new size.
    pub fn set_size(&mut self, width: u16, height: u16)
        ensures
            final(self).spec_width() == width,
            final(self).spec_height() == height,
            final(self).spec_cursor_pos() == old(self).spec_cursor_pos(),
            final(self).spec_supports_colors() == old(self).spec_supports_colors(),
    {
        self.width = width;
        self.height = height;
    }

    /// Sets the place of the cursor.
    pub fn set_cursor_pos(&mut self, col: u16, row: u16)
        ensures
            final(self).spec_cursor_pos() == (col, row),
            final(self).spec_width() == old(self).spec_width(),
            final(self).spec_height() == old(self).spec_height(),
            final(self).spec_supports_colors() == old(self).spec_supports_colors(),
    {
        self.cursor_pos = (col, row);
    }

    /// The width of the terminal in columns.
    pub fn width(&self) -> (r: u16)
        ensures
            r == self.spec_width(),
    {
        self.width
    }

    /// The height of the terminal in rows.
    pub fn height(&self) -> (r: u16)
        ensures
            r == self.spec_height(),
    {
        self.height
    }

    /// The place of the cursor as column and row.
    pub fn cursor_pos(&self) -> (r: (u16, u16))
        ensures
            r == self.spec_cursor_pos(),
    {
        self.cursor_pos
    }

    /// Whether the terminal shows colours.
    pub fn supports_colors(&self) -> (r: bool)
        ensures
            r == self.spec_supports_colors(),
    {
        self.supports_colors
    }

    /// Whether the given number of lines fits into the terminal.
    pub fn can_fit(&self, lines: u16) -> (r: bool)
        ensures
            r == (lines <= self.spec_height()),
    {
        lines <= self.height
    }
}

} // verus!
