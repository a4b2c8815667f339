//! What this crate takes on trust.
//!
//! Grapheme cluster boundaries, display widths and character classes come
//! from the Unicode tables of other libraries. None of them is computed
//! here: each is a named function of the text or character alone, and the
//! items below state that the library call returns it. The last item states
//! what the standard library does when a character is pushed onto a string.
//! Nothing in this module is proved.

use unicode_segmentation::UnicodeSegmentation;
use unicode_width::UnicodeWidthStr;
use vstd::prelude::*;
use vstd::string::*;
use vstd::utf8::*;
use crate::text::on_boundary;

verus! {

/// The byte offsets at which the extended grapheme clusters of `text` start,
/// in order.
pub uninterp spec fn grapheme_starts(text: Seq<char>) -> Seq<usize>;

/// The number of terminal columns `text` takes when East Asian ambiguous
/// characters count as wide.
pub uninterp spec fn cjk_width(text: Seq<char>) -> usize;

/// `c` has the Unicode property `White_Space`.
pub uninterp spec fn whitespace_char(c: char) -> bool;

/// `c` has the general category `Cc`.
pub uninterp spec fn control_char(c: char) -> bool;

/// `c` has the property `Alphabetic` or a numeric general category.
pub uninterp spec fn alphanumeric_char(c: char) -> bool;

/// `c` has the property `Uppercase`.
pub uninterp spec fn uppercase_char(c: char) -> bool;

/// `c` has the property `Lowercase`.
pub uninterp spec fn lowercase_char(c: char) -> bool;

/// `starts` cuts `text` into consecutive, non-empty pieces that begin and end
/// between characters: the first piece starts at 0, the offsets grow strictly
/// and all lie inside the text.
pub open spec fn well_segmented(text: Seq<u8>, starts: Seq<usize>) -> bool {
    &&& (starts.len() == 0 <==> text.len() == 0)
    &&& starts.len() > 0 ==> starts[0] == 0
    &&& forall|i: int, j: int| 0 <= i < j < starts.len() ==> starts[i] < starts[j]
    &&& forall|i: int| 0 <= i < starts.len() ==> starts[i] < text.len()
    &&& forall|i: int| 0 <= i < starts.len() ==> on_boundary(text, #[trigger] starts[i] as int)
}

/// `UnicodeSegmentation::grapheme_indices` in extended mode, keeping the
/// offsets only. The iterator hands out consecutive non-empty slices of `s`
/// from its start to its end, so the offsets cut `s` as `well_segmented` says.
#[verifier::external_body]
pub(crate) fn grapheme_start_indices(s: &str) -> (r: Vec<usize>)
    ensures
        r@ == grapheme_starts(s@),
        well_segmented(s.spec_bytes(), r@),
{
    s.grapheme_indices(true).map(|(start, _)| start).collect()
}

/// `UnicodeWidthStr::width_cjk`.
#[verifier::external_body]
pub(crate) fn str_width_cjk(s: &str) -> (w: usize)
    ensures
        w == cjk_width(s@),
{
    s.width_cjk()
}

/// `char::is_whitespace`.
pub assume_specification[ char::is_whitespace ](c: char) -> (r: bool)
    ensures
        r == whitespace_char(c),
;

/// `char::is_control`.
pub assume_specification[ char::is_control ](c: char) -> (r: bool)
    ensures
        r == control_char(c),
;

/// `char::is_alphanumeric`.
pub assume_specification[ char::is_alphanumeric ](c: char) -> (r: bool)
    ensures
        r == alphanumeric_char(c),
;

/// `char::is_uppercase`.
pub assume_specification[ char::is_uppercase ](c: char) -> (r: bool)
    ensures
        r == uppercase_char(c),
;

/// `char::is_lowercase`.
pub assume_specification[ char::is_lowercase ](c: char) -> (r: bool)
    ensures
        r == lowercase_char(c),
;

/// `String::push`: `c` is appended to `s`.
#[verifier::external_body]
pub(crate) fn push_char(s: &mut String, c: char)
    ensures
        final(s)@ == old(s)@.push(c),
{
    s.push(c)
}

} // verus!
