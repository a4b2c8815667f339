//! The display width of a grapheme cluster.

use vstd::prelude::*;

verus! {

/// A cluster takes one terminal column or two.
#[derive(Copy, Clone, PartialEq, Eq, Debug, Structural)]
pub enum GraphemeWidth {
    Half,
    Full,
}

impl GraphemeWidth {
    /// The number of columns.
    pub open spec fn cols(self) -> nat {
        match self {
            GraphemeWidth::Half => 1,
            GraphemeWidth::Full => 2,
        }
    }

    /// The number of columns.
    pub fn columns(self) -> (r: usize)
        ensures
            r == self.cols(),
    {
        match self {
            GraphemeWidth::Half => 1,
            GraphemeWidth::Full => 2,
        }
    }

    /// `other` plus the number of columns, capped at `usize::MAX`.
    pub fn saturating_add(self, other: usize) -> (r: usize)
        ensures
            r == if other + self.cols() > usize::MAX {
                usize::MAX as int
            } else {
                other + self.cols()
            },
    {
        match self {
            GraphemeWidth::Half => other.saturating_add(1),
            GraphemeWidth::Full => other.saturating_add(2),
        }
    }
}

} // verus!
