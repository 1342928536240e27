//! Positions in the text buffer.
use vstd::prelude::*;

verus! {

/// A zero-based position in the buffer.
#[derive(Clone, Copy, Debug, PartialEq, Eq, Structural)]
pub struct Index2 {
    /// The row index.
    pub row: usize,
    /// The column index.
    pub col: usize,
}

impl Index2 {
    /// Row-major order: first by row, then by column.
    pub open spec fn le(self, other: Index2) -> bool {
        self.row < other.row || (self.row == other.row && self.col <= other.col)
    }

    /// Strict row-major order.
    pub open spec fn lt(self, other: Index2) -> bool {
        self.row < other.row || (self.row == other.row && self.col < other.col)
    }

    /// A position at the given row and column.
    pub fn new(row: usize, col: usize) -> (index: Index2)
        ensures
            index.row == row,
            index.col == col,
    {
        Index2 { row, col }
    }

    /// Whether `self` comes at or before `other` in row-major order.
    pub fn at_or_before(&self, other: &Index2) -> (b: bool)
        ensures
            b == self.le(*other),
    {
        self.row < other.row || (self.row == other.row && self.col <= other.col)
    }
}

impl Default for Index2 {
    fn default() -> (index: Index2)
        ensures
            index.row == 0,
            index.col == 0,
    {
        Index2 { row: 0, col: 0 }
    }
}

} // verus!
