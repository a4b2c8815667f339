//! The size of the screen.

use vstd::prelude::*;

verus! {

/// A number of rows and of columns.
#[derive(Copy, Clone, Debug, PartialEq, Eq, Structural)]
pub struct Size {
    pub height: usize,
    pub width: usize,
}

impl Default for Size {
    fn default() -> (r: Self)
        ensures
            r == (Size { height: 0, width: 0 }),
    {
        Size { height: 0, width: 0 }
    }
}

} // verus!
