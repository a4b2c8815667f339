//! One grapheme cluster of a line, as the renderer needs it.

use vstd::prelude::*;
use crate::grapheme_width::GraphemeWidth;

verus! {

/// A grapheme cluster with its place in the line and the way it is shown.
pub struct TextFragment {
    /// The text of the cluster.
    pub grapheme: String,
    /// The columns it takes on screen.
    pub rendered_width: GraphemeWidth,
    /// The character shown in its place, where it is not shown as it is.
    pub replacement: Option<char>,
    /// The byte offset in the line at which it starts.
    pub start: usize,
}

} // verus!
