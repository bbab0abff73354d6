//! The scrolling viewport: maps the cursor's line to a window of visible
//! lines, scrolling just far enough to keep the cursor on screen.

use vstd::prelude::*;

verus! {

/// The first visible line index and the visible line capacity.
pub struct ViewportModel {
    pub viewport_row: usize,
    pub max_lines: usize,
}

impl ViewportModel {
    pub fn new(max_lines: usize) -> (r: Self)
        requires
            max_lines >= 1,
        ensures
            r.viewport_row == 0,
            r.max_lines == max_lines,
    {
        ViewportModel { viewport_row: 0, max_lines }
    }

    /// Scrolls the window so the line containing the cursor is visible: up to
    /// reveal a cursor above the window, down just far enough to keep a cursor
    /// below it on the last visible row.  Returns whether a scroll occurred,
    /// so the caller can invalidate the whole visible range.
    ///
    /// After reconciliation the viewport invariant holds for every cursor
    /// line: `viewport_row <= cursor_line < viewport_row + max_lines`.
    pub fn reconcile(&mut self, cursor_line: usize) -> (scrolled: bool)
        requires
            old(self).max_lines >= 1,
        ensures
            final(self).max_lines == old(self).max_lines,
            final(self).viewport_row <= cursor_line,
            cursor_line < final(self).viewport_row + final(self).max_lines,
            scrolled == (final(self).viewport_row != old(self).viewport_row),
            cursor_line < old(self).viewport_row ==> final(self).viewport_row == cursor_line,
            old(self).viewport_row <= cursor_line < old(self).viewport_row + old(self).max_lines
                ==> final(self).viewport_row == old(self).viewport_row,
            cursor_line >= old(self).viewport_row + old(self).max_lines ==> final(self).viewport_row
                == cursor_line - old(self).max_lines + 1,
    {
        if cursor_line < self.viewport_row {
            self.viewport_row = cursor_line;
            true
        } else if cursor_line - self.viewport_row >= self.max_lines {
            self.viewport_row = cursor_line - (self.max_lines - 1);
            true
        } else {
            false
        }
    }
}

} // verus!
