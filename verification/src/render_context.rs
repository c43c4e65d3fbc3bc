//! A laid-out frame together with the place of the cursor in it.

use crate::frame::Frame;
use vstd::prelude::*;

verus! {

/// The frame of one render pass and, where an input is focused, the cursor
/// as column and line index within the frame.
#[derive(Debug)]
pub struct RenderContext {
    pub frame: Frame,
    pub cursor_position: Option<(u16, usize)>,
}

impl RenderContext {
    /// A context without a cursor.
    pub fn new(frame: Frame) -> (r: Self)
        ensures
            r.frame == frame,
            r.cursor_position is None,
    {
        RenderContext { frame, cursor_position: None }
    }

    /// Places the cursor at a column of a line of the frame.
    pub fn with_cursor(self, col: u16, line: usize) -> (r: Self)
        ensures
            r.frame == self.frame,
            r.cursor_position == Some((col, line)),
    {
        RenderContext { frame: self.frame, cursor_position: Some((col, line)) }
    }

    /// Places the cursor at a column of a line of the frame.
    pub fn set_cursor(&mut self, col: u16, line: usize)
        ensures
            final(self).frame == old(self).frame,
            final(self).cursor_position == Some((col, line)),
    {
        self.cursor_position = Some((col, line));
    }
}

} // verus!
