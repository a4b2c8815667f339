//! What a highlighter is: a function from a line and the state left by the
//! lines before it to tagged byte ranges and the state for the next line.

use vstd::prelude::*;
use vstd::string::*;
use crate::annotation_type::AnnotationType;

verus! {

/// The bytes from `start` up to, not including, `end` of a line are of kind
/// `annotation_type`.
#[derive(Clone, Copy, Debug)]
pub struct HighlightAnnotation {
    pub annotation_type: AnnotationType,
    pub start: usize,
    pub end: usize,
}

/// The delimiter of a string literal.
#[derive(Clone, Copy, PartialEq, Eq, Debug, Structural)]
pub enum StringType {
    DoubleQuote,
    SingleQuote,
    Backtick,
    TripleDoubleQuote,
    TripleSingleQuote,
}

/// What is carried from one line to the next: whether a block comment or a
/// string is open, and how deep each kind of bracket is nested.
#[derive(Clone, Copy, Debug)]
pub struct HighlightState {
    pub in_block_comment: bool,
    pub paren_level: usize,
    pub brace_level: usize,
    pub bracket_level: usize,
    pub in_string: Option<StringType>,
}

impl HighlightState {
    /// The state at the start of a document.
    pub open spec fn initial() -> Self {
        HighlightState {
            in_block_comment: false,
            paren_level: 0,
            brace_level: 0,
            bracket_level: 0,
            in_string: None,
        }
    }
}

impl Default for HighlightState {
    fn default() -> (r: Self)
        ensures
            r == HighlightState::initial(),
    {
        HighlightState {
            in_block_comment: false,
            paren_level: 0,
            brace_level: 0,
            bracket_level: 0,
            in_string: None,
        }
    }
}

/// Every range is in order and lies inside a line of `len` bytes.
pub open spec fn annotations_within(annotations: Seq<HighlightAnnotation>, len: int) -> bool {
    forall|i: int|
        0 <= i < annotations.len() ==> (#[trigger] annotations[i]).start <= annotations[i].end <= len
}

/// A highlighter for one language.
pub trait Highlighter {
    /// The annotations of `line` and the state after it, given the state
    /// before it.
    spec fn highlighted(&self, line: Seq<char>, state: HighlightState) -> (
        Seq<HighlightAnnotation>,
        HighlightState,
    );

    /// The name of the language.
    spec fn name(&self) -> Seq<char>;

    /// Tags the parts of `line`. The state before the line comes from the
    /// line above, and the state returned goes to the line below. Every range
    /// is in order and lies inside the line.
    fn highlight_line(&self, line: &str, line_idx: usize, state: HighlightState) -> (r: (
        Vec<HighlightAnnotation>,
        HighlightState,
    ))
        ensures
            (r.0@, r.1) == self.highlighted(line@, state),
            annotations_within(r.0@, line.spec_bytes().len() as int),
    ;

    /// The name of the language.
    fn language_name(&self) -> (r: &str)
        ensures
            r@ == self.name(),
    ;
}

} // verus!
