//! What is known of the terminal: its size and the place of the cursor.

use crate::position::Position;
use vstd::prelude::*;

verus! {

/// The size of the terminal and the place of the cursor.
#[derive(Clone, Copy, Debug)]
pub struct TerminalState {
    width: u16,
    height: u16,
    cursor: Position,
}

impl TerminalState {
    /// The width of the terminal in columns.
    pub closed spec fn spec_width(&self) -> u16 {
        self.width
    }

    /// The height of the terminal in rows.
    pub closed spec fn spec_height(&self) -> u16 {
        self.height
    }

    /// The place of the cursor.
    pub closed spec fn spec_cursor(&self) -> Position {
        self.cursor
    }

    /// The state of a terminal of the given size, the cursor at the origin.
    pub fn with_size(width: u16, height: u16) -> (r: Self)
        ensures
            r.spec_width() == width,
            r.spec_height() == height,
            r.spec_cursor().spec_x() == 0,
            r.spec_cursor().spec_y() == 0,
    {
        TerminalState { width, height, cursor: Position::new(0, 0) }
    }

    /// Takes a new size. Answers whether the size changed.
    pub fn update_size(&mut self, width: u16, height: u16) -> (changed: bool)
        ensures
            changed == (old(self).spec_width() != width || old(self).spec_height() != height),
            final(self).spec_width() == width,
            final(self).spec_height() == height,
            final(self).spec_cursor() == old(self).spec_cursor(),
    {
        let changed = self.width != width || self.height != height;
        self.width = width;
        self.height = height;
        changed
    }

    /// Sets the cursor.
    pub fn set_cursor(&mut self, x: u16, y: u16)
        ensures
            final(self).spec_cursor().spec_x() == x,
            final(self).spec_cursor().spec_y() == y,
            final(self).spec_width() == old(self).spec_width(),
            final(self).spec_height() == old(self).spec_height(),
    {
        self.cursor = Position::new(x, y);
    }

    /// The width of the terminal in columns.
    pub fn width(&self) -> (r: u16)
        ensures
            r == self.spec_width(),
    {
        self.width
    }

    /// The height of the terminal in rows.
    pub fn height(&self) -> (r: u16)
        ensures
            r == self.spec_height(),
    {
        self.height
    }

    /// The place of the cursor.
    pub fn cursor(&self) -> (r: Position)
        ensures
            r == self.spec_cursor(),
    {
        self.cursor
    }
}

} // verus!
