//! A tagged byte range.

use vstd::prelude::*;
use crate::annotation_type::AnnotationType;

verus! {

/// The bytes from `start` up to, not including, `end` are of kind `kind`.
#[derive(Copy, Clone, Debug)]
pub struct Annotation {
    pub kind: AnnotationType,
    pub start: usize,
    pub end: usize,
}

} // verus!
