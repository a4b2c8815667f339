//! A cell of the screen.

use vstd::prelude::*;

verus! {

/// A column and a row, both counted from 0.
#[derive(Copy, Clone, Debug, PartialEq, Eq, Structural)]
pub struct Position {
    pub col: usize,
    pub row: usize,
}

impl Position {
    /// `self` seen from `other`: the difference in each direction, 0 where
    /// `other` lies further out.
    pub open spec fn minus(self, other: Position) -> Position {
        Position {
            col: if self.col >= other.col {
                (self.col - other.col) as usize
            } else {
                0
            },
            row: if self.row >= other.row {
                (self.row - other.row) as usize
            } else {
                0
            },
        }
    }

    /// `self` seen from `other`.
    pub fn saturating_sub(self, other: Self) -> (r: Self)
        ensures
            r == self.minus(other),
    {
        Position { col: self.col.saturating_sub(other.col), row: self.row.saturating_sub(other.row) }
    }
}

impl Default for Position {
    fn default() -> (r: Self)
        ensures
            r == (Position { col: 0, row: 0 }),
    {
        Position { col: 0, row: 0 }
    }
}

} // verus!
