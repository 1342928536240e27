//! The part of the text that is shown: the offset of the viewport.
use crate::index::Index2;
use vstd::prelude::*;

verus! {

/// The offset of the viewport: the column and the row of the text that are
/// shown in its upper left corner.
#[derive(Debug, Clone, Copy, PartialEq, Eq, Structural)]
pub struct ViewState {
    /// The first column shown.
    pub x: usize,
    /// The first row shown.
    pub y: usize,
}

/// The offset that shows `at` in a viewport of `size` cells, moved from
/// `offset` by as little as it takes: unchanged where `at` is visible, and
/// else such that `at` is the first or the last cell shown.
pub open spec fn scrolled(offset: usize, size: usize, at: usize) -> usize {
    if at < offset {
        at
    } else if size > 0 && at - offset >= size {
        (at - (size - 1)) as usize
    } else {
        offset
    }
}

/// Whether `at` is shown in a viewport of `size` cells at `offset`.
pub open spec fn shown(offset: usize, size: usize, at: usize) -> bool {
    offset <= at < offset + size
}

impl Default for ViewState {
    fn default() -> (view: ViewState)
        ensures
            view == (ViewState { x: 0, y: 0 }),
    {
        ViewState { x: 0, y: 0 }
    }
}

/// One axis of [`ViewState::update_offset`].
fn scroll(offset: usize, size: usize, at: usize) -> (moved: usize)
    ensures
        moved == scrolled(offset, size, at),
        size > 0 ==> shown(moved, size, at),
        shown(offset, size, at) ==> moved == offset,
{
    if at < offset {
        at
    } else if size > 0 && at - offset >= size {
        at - (size - 1)
    } else {
        offset
    }
}

impl ViewState {
    /// Moves the viewport so that the cursor is shown, and returns the new
    /// offset as `(x, y)`. `size` is the width and the height of the viewport.
    /// Along each axis the viewport moves only if the cursor is outside it,
    /// and then by as little as brings the cursor in.
    pub fn update_offset(&mut self, size: (usize, usize), cursor: Index2) -> (offset: (usize, usize))
        ensures
            final(self).x == scrolled(old(self).x, size.0, cursor.col),
            final(self).y == scrolled(old(self).y, size.1, cursor.row),
            offset == (final(self).x, final(self).y),
            size.0 > 0 ==> shown(final(self).x, size.0, cursor.col),
            size.1 > 0 ==> shown(final(self).y, size.1, cursor.row),
    {
        self.x = scroll(self.x, size.0, cursor.col);
        self.y = scroll(self.y, size.1, cursor.row);
        (self.x, self.y)
    }
}

} // verus!
