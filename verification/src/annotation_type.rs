//! The kinds of annotation.

use vstd::prelude::*;

verus! {

/// What a stretch of text is shown as.
#[derive(Copy, Clone, Eq, PartialEq, Debug, Structural)]
pub enum AnnotationType {
    Match,
    SelectedMatch,
    Keyword,
    Number,
    Type,
    PrimitiveType,
    String,
    Comment,
    Bracket0,
    Bracket1,
    Bracket2,
    Bracket3,
    Selection,
}

} // verus!
