//! Scanning the characters of a line.
//!
//! The tokenizer works on characters and their indices. What it finds is
//! turned into byte ranges at the end, by the offset at which each character
//! starts in the UTF-8 encoding of the line.

use vstd::prelude::*;
use vstd::string::*;
use vstd::utf8::*;
use crate::annotation_type::AnnotationType;
use crate::highlight::highlighter::HighlightAnnotation;
use crate::text::{lemma_encode_concat, utf8_len};
use crate::unicode::alphanumeric_char;

verus! {

/// The characters from index `start` up to, not including, `end` are of kind
/// `kind`.
#[derive(Clone, Copy, Debug)]
pub struct Token {
    pub kind: AnnotationType,
    pub start: usize,
    pub end: usize,
}

/// The token of kind `kind` over the characters `start..end`.
pub open spec fn token(kind: AnnotationType, start: int, end: int) -> Token {
    Token { kind, start: start as usize, end: end as usize }
}

/// Every token is in order and lies inside a line of `n` characters.
pub open spec fn tokens_within(tokens: Seq<Token>, n: int) -> bool {
    forall|i: int| 0 <= i < tokens.len() ==> (#[trigger] tokens[i]).start <= tokens[i].end <= n
}

/// The byte offset at which character `i` of `chars` starts.
pub open spec fn byte_offset(chars: Seq<char>, i: int) -> int {
    encode_utf8(chars.subrange(0, i)).len() as int
}

/// Index `p` lies in one of `spans`.
pub open spec fn in_any(spans: Seq<Token>, p: int) -> bool
    decreases spans.len(),
{
    if spans.len() == 0 {
        false
    } else {
        (spans.last().start <= p < spans.last().end) || in_any(spans.drop_last(), p)
    }
}

/// `needle` stands in `hay` at index `i`.
pub open spec fn stands_at(hay: Seq<char>, needle: Seq<char>, i: int) -> bool {
    0 <= i && i + needle.len() <= hay.len() && hay.subrange(i, i + needle.len()) == needle
}

/// The first index at or after `from` at which `needle` stands in `hay`.
pub open spec fn first_occurrence(hay: Seq<char>, needle: Seq<char>, from: int) -> Option<int>
    decreases hay.len() - from + 1,
{
    if from < 0 || from + needle.len() > hay.len() {
        None
    } else if stands_at(hay, needle, from) {
        Some(from)
    } else {
        first_occurrence(hay, needle, from + 1)
    }
}

/// `c` ends a word: it is neither a letter, nor a digit, nor `_`.
pub open spec fn word_boundary(c: char) -> bool {
    !alphanumeric_char(c) && c != '_'
}

/// Whether index `p` lies in one of `spans`.
pub fn is_in_any(spans: &Vec<Token>, p: usize) -> (r: bool)
    ensures
        r == in_any(spans@, p as int),
{
    let mut i: usize = 0;
    let mut r = false;
    assert(spans@.take(0) =~= Seq::<Token>::empty());
    while i < spans.len()
        invariant
            i <= spans.len(),
            r == in_any(spans@.take(i as int), p as int),
        decreases spans.len() - i,
    {
        proof {
            assert(spans@.take(i + 1).drop_last() =~= spans@.take(i as int));
        }
        if spans[i].start <= p && p < spans[i].end {
            r = true;
        }
        i += 1;
    }
    assert(spans@.take(spans.len() as int) =~= spans@);
    r
}

/// Whether `needle` stands in `hay` at index `i`.
pub fn is_at(hay: &Vec<char>, needle: &Vec<char>, i: usize) -> (r: bool)
    ensures
        r == stands_at(hay@, needle@, i as int),
{
    if i > hay.len() || needle.len() > hay.len() - i {
        return false;
    }
    let mut k: usize = 0;
    while k < needle.len()
        invariant
            k <= needle.len(),
            i + needle.len() <= hay.len(),
            forall|j: int| 0 <= j < k ==> hay@[i + j] == needle@[j],
        decreases needle.len() - k,
    {
        if hay[i + k] != needle[k] {
            assert(hay@.subrange(i as int, i + needle.len())[k as int] != needle@[k as int]);
            return false;
        }
        k += 1;
    }
    assert(hay@.subrange(i as int, i + needle.len()) =~= needle@);
    true
}

/// The first index at or after `from` at which `needle` stands in `hay`.
pub fn find_from(hay: &Vec<char>, needle: &Vec<char>, from: usize) -> (r: Option<usize>)
    ensures
        match first_occurrence(hay@, needle@, from as int) {
            Some(i) => r == Some(i as usize) && from <= i && i + needle.len() <= hay.len(),
            None => r is None,
        },
{
    if from > hay.len() || needle.len() > hay.len() - from {
        return None;
    }
    let last = hay.len() - needle.len();
    let mut i = from;
    while i <= last
        invariant
            from <= i,
            last == hay.len() - needle.len(),
            first_occurrence(hay@, needle@, from as int) == first_occurrence(hay@, needle@, i as int),
        decreases last + 1 - i,
    {
        if is_at(hay, needle, i) {
            return Some(i);
        }
        if i == last {
            assert(first_occurrence(hay@, needle@, i + 1) is None);
            return None;
        }
        i += 1;
    }
    None
}

/// Whether `c` ends a word.
pub fn is_word_boundary(c: char) -> (r: bool)
    ensures
        r == word_boundary(c),
{
    !c.is_alphanumeric() && c != '_'
}

/// Whether two texts are the same.
pub fn same_chars(a: &Vec<char>, b: &Vec<char>) -> (r: bool)
    ensures
        r == (a@ == b@),
{
    if a.len() != b.len() {
        return false;
    }
    let r = is_at(a, b, 0);
    assert(a@.subrange(0, a@.len() as int) =~= a@);
    r
}

/// The first index at or after `from` at which the needle stands lies at or
/// after `from`, and the needle fits behind it.
pub proof fn lemma_first_occurrence(hay: Seq<char>, needle: Seq<char>, from: int)
    ensures
        first_occurrence(hay, needle, from) is Some ==> from <= first_occurrence(hay, needle, from)->0
            && first_occurrence(hay, needle, from)->0 + needle.len() <= hay.len() && stands_at(
            hay,
            needle,
            first_occurrence(hay, needle, from)->0,
        ),
    decreases hay.len() - from + 1,
{
    if from < 0 || from + needle.len() > hay.len() {
    } else if stands_at(hay, needle, from) {
    } else {
        lemma_first_occurrence(hay, needle, from + 1);
    }
}

/// Offsets grow with the index and end at the length of the encoding.
pub proof fn lemma_byte_offset(chars: Seq<char>, i: int, j: int)
    requires
        0 <= i <= j <= chars.len(),
    ensures
        byte_offset(chars, i) <= byte_offset(chars, j) <= encode_utf8(chars).len(),
        byte_offset(chars, chars.len() as int) == encode_utf8(chars).len(),
        byte_offset(chars, 0) == 0,
        j < chars.len() ==> byte_offset(chars, j + 1) == byte_offset(chars, j) + encode_utf8(
            seq![chars[j]],
        ).len(),
{
    assert(chars.subrange(0, j) =~= chars.subrange(0, i) + chars.subrange(i, j));
    lemma_encode_concat(chars.subrange(0, i), chars.subrange(i, j));
    assert(chars =~= chars.subrange(0, j) + chars.subrange(j, chars.len() as int));
    lemma_encode_concat(chars.subrange(0, j), chars.subrange(j, chars.len() as int));
    assert(chars.subrange(0, chars.len() as int) =~= chars);
    assert(chars.subrange(0, 0) =~= Seq::<char>::empty());
    if j < chars.len() {
        assert(chars.subrange(0, j + 1) =~= chars.subrange(0, j) + seq![chars[j]]);
        lemma_encode_concat(chars.subrange(0, j), seq![chars[j]]);
    }
}

/// The byte offset at which each character of `chars` starts, and behind
/// them the length of the encoding.
pub fn char_offsets(chars: &Vec<char>) -> (offsets: Vec<usize>)
    requires
        encode_utf8(chars@).len() <= usize::MAX,
    ensures
        offsets.len() == chars.len() + 1,
        forall|i: int| 0 <= i <= chars.len() ==> #[trigger] offsets[i] == byte_offset(chars@, i),
{
    let mut offsets: Vec<usize> = Vec::new();
    let mut at: usize = 0;
    let mut i: usize = 0;
    proof {
        lemma_byte_offset(chars@, 0, 0);
    }
    while i < chars.len()
        invariant
            i <= chars.len(),
            encode_utf8(chars@).len() <= usize::MAX,
            offsets.len() == i,
            at == byte_offset(chars@, i as int),
            forall|k: int| 0 <= k < i ==> #[trigger] offsets[k] == byte_offset(chars@, k),
        decreases chars.len() - i,
    {
        proof {
            lemma_byte_offset(chars@, i as int, i as int);
            lemma_byte_offset(chars@, i + 1, i + 1);
        }
        offsets.push(at);
        at = at + utf8_len(chars[i]);
        i += 1;
    }
    offsets.push(at);
    offsets
}

/// The annotation that covers the bytes of the characters of `t`.
pub open spec fn to_annotation(chars: Seq<char>, t: Token) -> HighlightAnnotation {
    HighlightAnnotation {
        annotation_type: t.kind,
        start: byte_offset(chars, t.start as int) as usize,
        end: byte_offset(chars, t.end as int) as usize,
    }
}

/// The annotations that cover the bytes of the characters of `tokens`.
pub open spec fn to_annotations(chars: Seq<char>, tokens: Seq<Token>) -> Seq<HighlightAnnotation> {
    Seq::new(tokens.len(), |i: int| to_annotation(chars, tokens[i]))
}

} // verus!
