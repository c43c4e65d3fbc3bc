//! A place on the terminal.

use vstd::prelude::*;

verus! {

/// A column and a row.
#[derive(Clone, Copy, Debug, PartialEq, Eq, Structural)]
pub struct Position {
    x: u16,
    y: u16,
}

impl Position {
    /// The column.
    pub closed spec fn spec_x(&self) -> u16 {
        self.x
    }

    /// The row.
    pub closed spec fn spec_y(&self) -> u16 {
        self.y
    }

    /// A position at a column and a row.
    pub fn new(x: u16, y: u16) -> (r: Self)
        ensures
            r.spec_x() == x,
            r.spec_y() == y,
    {
        Position { x, y }
    }

    /// The column.
    pub fn x(&self) -> (r: u16)
        ensures
            r == self.spec_x(),
    {
        self.x
    }

    /// The row.
    pub fn y(&self) -> (r: u16)
        ensures
            r == self.spec_y(),
    {
        self.y
    }

    /// Moves the position to a column and a row.
    pub fn set(&mut self, x: u16, y: u16)
        ensures
            final(self).spec_x() == x,
            final(self).spec_y() == y,
    {
        self.x = x;
        self.y = y;
    }
}

} // verus!
