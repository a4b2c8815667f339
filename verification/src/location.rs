//! A place in a document.

use vstd::prelude::*;

verus! {

/// The place in front of cluster `grapheme_idx` of line `line_idx`.
#[derive(Copy, Clone, Debug, PartialEq, Eq, Structural)]
pub struct Location {
    pub grapheme_idx: usize,
    pub line_idx: usize,
}

impl Location {
    /// `self` comes before `other` in the document, or is the same place.
    pub open spec fn at_or_before(self, other: Location) -> bool {
        self.line_idx < other.line_idx || (self.line_idx == other.line_idx && self.grapheme_idx
            <= other.grapheme_idx)
    }

    /// `self` comes before `other` in the document.
    pub open spec fn before(self, other: Location) -> bool {
        self.at_or_before(other) && self != other
    }

    /// The start of the document.
    pub open spec fn origin() -> Location {
        Location { grapheme_idx: 0, line_idx: 0 }
    }
}

impl Default for Location {
    fn default() -> (r: Self)
        ensures
            r == Location::origin(),
    {
        Location { grapheme_idx: 0, line_idx: 0 }
    }
}

} // verus!
