//! Byte-level helpers for UTF-8 text.
//!
//! Every text in this crate is modelled by its UTF-8 bytes. Positions are
//! byte offsets, and a position is a *boundary* when it does not fall inside
//! the encoding of a character.

use vstd::prelude::*;
use vstd::string::*;
use vstd::utf8::*;
use crate::unicode::push_char;

verus! {

/// `i` is the start of a character of `text`, or its end.
pub open spec fn on_boundary(text: Seq<u8>, i: int) -> bool {
    0 <= i <= text.len() && (i == 0 || i == text.len() || !is_continuation_byte(text[i]))
}

/// The nearest boundary of `text` at or below `i`.
pub open spec fn floor_boundary(text: Seq<u8>, i: int) -> int
    decreases i,
{
    if i <= 0 {
        0
    } else if i >= text.len() {
        text.len() as int
    } else if !is_continuation_byte(text[i]) {
        i
    } else {
        floor_boundary(text, i - 1)
    }
}

/// On valid UTF-8 the byte test agrees with the recursive definition of a
/// character boundary.
pub proof fn lemma_boundary(text: Seq<u8>, i: int)
    requires
        valid_utf8(text),
    ensures
        is_char_boundary(text, i) <==> on_boundary(text, i),
{
    if 0 <= i < text.len() {
        is_char_boundary_iff_not_is_continuation_byte(text, i);
    } else if i == text.len() {
        is_char_boundary_start_end_of_seq(text);
    } else {
        assert(!is_char_boundary(text, i));
    }
}

/// The floor is a boundary, the nearest one below.
pub proof fn lemma_floor_boundary(text: Seq<u8>, i: int)
    ensures
        on_boundary(text, floor_boundary(text, i)),
        0 <= floor_boundary(text, i) <= text.len(),
        floor_boundary(text, i) <= i || i < 0,
        on_boundary(text, i) ==> floor_boundary(text, i) == i,
        forall|j: int| floor_boundary(text, i) < j <= i ==> !on_boundary(text, j),
    decreases i,
{
    if i <= 0 {
    } else if i >= text.len() {
    } else if !is_continuation_byte(text[i]) {
    } else {
        lemma_floor_boundary(text, i - 1);
    }
}

/// The floor does not go down as the offset goes up.
pub proof fn lemma_floor_monotone(text: Seq<u8>, i: int, j: int)
    requires
        i <= j,
    ensures
        floor_boundary(text, i) <= floor_boundary(text, j),
    decreases j,
{
    lemma_floor_boundary(text, i);
    lemma_floor_boundary(text, j);
    if j <= 0 {
    } else if j >= text.len() {
    } else if !is_continuation_byte(text[j]) {
    } else if i < j {
        lemma_floor_monotone(text, i, j - 1);
    }
}

/// The length of `s` in bytes.
pub fn byte_len(s: &str) -> (n: usize)
    ensures
        n == s.spec_bytes().len(),
{
    s.as_bytes().len()
}

/// The part of `s` between the boundaries `from` and `to`.
pub fn substr(s: &str, from: usize, to: usize) -> (r: &str)
    requires
        from <= to,
        on_boundary(s.spec_bytes(), from as int),
        on_boundary(s.spec_bytes(), to as int),
    ensures
        r.spec_bytes() == s.spec_bytes().subrange(from as int, to as int),
{
    broadcast use group_utf8_lib;
    proof {
        lemma_boundary(s.spec_bytes(), to as int);
    }
    let (head, _) = s.split_at(to);
    proof {
        lemma_boundary(head.spec_bytes(), from as int);
        lemma_boundary(s.spec_bytes(), from as int);
    }
    let (_, tail) = head.split_at(from);
    assert(tail.spec_bytes() =~= s.spec_bytes().subrange(from as int, to as int));
    tail
}

/// The nearest boundary of `s` at or below `i`.
pub fn floor_char_boundary(s: &str, i: usize) -> (r: usize)
    ensures
        r == floor_boundary(s.spec_bytes(), i as int),
        r <= s.spec_bytes().len(),
        on_boundary(s.spec_bytes(), r as int),
{
    broadcast use group_utf8_lib;
    let len = byte_len(s);
    let mut j: usize = if i >= len { len } else { i };
    while j > 0 && j < len && !s.is_char_boundary(j)
        invariant
            j <= i,
            j <= len,
            len == s.spec_bytes().len(),
            valid_utf8(s.spec_bytes()),
            floor_boundary(s.spec_bytes(), j as int) == floor_boundary(s.spec_bytes(), i as int),
        decreases j,
    {
        proof {
            lemma_boundary(s.spec_bytes(), j as int);
        }
        j = j - 1;
    }
    proof {
        lemma_boundary(s.spec_bytes(), j as int);
    }
    j
}

/// Encoding distributes over concatenation.
pub proof fn lemma_encode_concat(a: Seq<char>, b: Seq<char>)
    ensures
        encode_utf8(a + b) == encode_utf8(a) + encode_utf8(b),
    decreases a.len(),
{
    if a.len() == 0 {
        assert(a + b =~= b);
        assert(encode_utf8(a) + encode_utf8(b) =~= encode_utf8(b));
    } else {
        assert((a + b).drop_first() =~= a.drop_first() + b);
        lemma_encode_concat(a.drop_first(), b);
        assert(encode_utf8(a + b) =~= encode_utf8(a) + encode_utf8(b));
    }
}

/// Two texts with the same bytes are the same text.
pub proof fn lemma_encode_injective(a: Seq<char>, b: Seq<char>)
    requires
        encode_utf8(a) == encode_utf8(b),
    ensures
        a == b,
{
    encode_utf8_decode_utf8(a);
    encode_utf8_decode_utf8(b);
}

/// `text` with the bytes from `from` to `to` replaced by `with`.
pub open spec fn spliced(text: Seq<u8>, from: int, to: int, with: Seq<u8>) -> Seq<u8> {
    text.subrange(0, from) + with + text.subrange(to, text.len() as int)
}

/// `s` with the bytes between the boundaries `from` and `to` replaced by
/// `with`.
pub fn splice(s: &str, from: usize, to: usize, with: &str) -> (r: String)
    requires
        from <= to,
        on_boundary(s.spec_bytes(), from as int),
        on_boundary(s.spec_bytes(), to as int),
    ensures
        encode_utf8(r@) == spliced(s.spec_bytes(), from as int, to as int, with.spec_bytes()),
{
    let head = substr(s, 0, from);
    let tail = substr(s, to, byte_len(s));
    let mut r = head.to_owned();
    r.append(with);
    r.append(tail);
    proof {
        lemma_encode_concat(head@, with@);
        lemma_encode_concat(head@ + with@, tail@);
    }
    r
}

/// `s` with `c` inserted at the boundary `at`.
pub fn insert_at(s: &str, at: usize, c: char) -> (r: String)
    requires
        on_boundary(s.spec_bytes(), at as int),
    ensures
        encode_utf8(r@) == spliced(s.spec_bytes(), at as int, at as int, encode_utf8(seq![c])),
{
    let head = substr(s, 0, at);
    let tail = substr(s, at, byte_len(s));
    let mut r = head.to_owned();
    push_char(&mut r, c);
    r.append(tail);
    proof {
        assert(head@.push(c) =~= head@ + seq![c]);
        lemma_encode_concat(head@, seq![c]);
        lemma_encode_concat(head@ + seq![c], tail@);
    }
    r
}

/// `n`, capped at `usize::MAX`.
pub open spec fn capped(n: int) -> int {
    if n > usize::MAX {
        usize::MAX as int
    } else {
        n
    }
}

/// `needle` stands in `hay` at offset `i`.
pub open spec fn occurs_at(hay: Seq<u8>, needle: Seq<u8>, i: int) -> bool {
    0 <= i && i + needle.len() <= hay.len() && hay.subrange(i, i + needle.len()) == needle
}

/// The offsets in `from..to` at which `needle` stands in `hay` and ends at or
/// before `to`, found from the left; after a hit the search goes on behind
/// it, so hits do not overlap. An empty needle stands at every offset.
pub open spec fn match_positions(hay: Seq<u8>, needle: Seq<u8>, from: int, to: int) -> Seq<int>
    decreases to - from + 1,
{
    if from < 0 || from + needle.len() > to {
        Seq::empty()
    } else if occurs_at(hay, needle, from) {
        let step = if needle.len() == 0 { 1 } else { needle.len() as int };
        seq![from] + match_positions(hay, needle, from + step, to)
    } else {
        match_positions(hay, needle, from + 1, to)
    }
}

/// Whether `needle` stands in `hay` at offset `i`.
pub fn matches_at(hay: &[u8], needle: &[u8], i: usize) -> (r: bool)
    ensures
        r == occurs_at(hay@, needle@, i as int),
{
    if i > hay.len() || needle.len() > hay.len() - i {
        return false;
    }
    let mut k: usize = 0;
    while k < needle.len()
        invariant
            k <= needle.len(),
            i + needle.len() <= hay.len(),
            forall|j: int| 0 <= j < k ==> hay@[i + j] == needle@[j],
        decreases needle.len() - k,
    {
        if hay[i + k] != needle[k] {
            assert(hay@.subrange(i as int, i + needle.len())[k as int] != needle@[k as int]);
            return false;
        }
        k += 1;
    }
    assert(hay@.subrange(i as int, i + needle.len()) =~= needle@);
    true
}

/// The offsets of `match_positions`, in order.
pub fn find_matches(hay: &[u8], needle: &[u8], from: usize, to: usize) -> (r: Vec<usize>)
    requires
        to <= hay.len(),
    ensures
        r@.map_values(|p: usize| p as int) == match_positions(hay@, needle@, from as int, to as int),
        forall|k: int| 0 <= k < r.len() ==> from <= #[trigger] r[k] && r[k] + needle.len() <= to,
{
    let mut r: Vec<usize> = Vec::new();
    let mut pos: usize = from;
    let ghost all = match_positions(hay@, needle@, from as int, to as int);
    while pos <= to && needle.len() <= to - pos
        invariant
            from <= pos,
            to <= hay.len(),
            all == match_positions(hay@, needle@, from as int, to as int),
            all == r@.map_values(|p: usize| p as int) + match_positions(
                hay@,
                needle@,
                pos as int,
                to as int,
            ),
            forall|k: int| 0 <= k < r.len() ==> from <= #[trigger] r[k] && r[k] + needle.len() <= to,
        decreases to + 1 - pos,
    {
        let ghost before = r@.map_values(|p: usize| p as int);
        if matches_at(hay, needle, pos) {
            r.push(pos);
            let step = if needle.len() == 0 { 1 } else { needle.len() };
            assert(r@.map_values(|p: usize| p as int) =~= before + seq![pos as int]);
            assert(all =~= r@.map_values(|p: usize| p as int) + match_positions(
                hay@,
                needle@,
                pos + step,
                to as int,
            ));
            if pos == to {
                assert(all =~= r@.map_values(|p: usize| p as int));
                return r;
            }
            pos = pos + step;
        } else {
            if pos == to {
                assert(match_positions(hay@, needle@, pos + 1, to as int) =~= Seq::<int>::empty());
                assert(all =~= r@.map_values(|p: usize| p as int));
                return r;
            }
            pos = pos + 1;
        }
    }
    assert(all =~= r@.map_values(|p: usize| p as int));
    r
}

/// The character of the decimal digit `d`.
pub open spec fn digit(d: int) -> char {
    if d == 0 {
        '0'
    } else if d == 1 {
        '1'
    } else if d == 2 {
        '2'
    } else if d == 3 {
        '3'
    } else if d == 4 {
        '4'
    } else if d == 5 {
        '5'
    } else if d == 6 {
        '6'
    } else if d == 7 {
        '7'
    } else if d == 8 {
        '8'
    } else {
        '9'
    }
}

/// `n` written in decimal digits, without leading zeros.
pub open spec fn decimal(n: nat) -> Seq<char>
    decreases n,
{
    if n < 10 {
        seq![digit(n as int)]
    } else {
        decimal(n / 10).push(digit((n % 10) as int))
    }
}

fn digit_char(d: usize) -> (c: char)
    requires
        d < 10,
    ensures
        c == digit(d as int),
{
    if d == 0 {
        '0'
    } else if d == 1 {
        '1'
    } else if d == 2 {
        '2'
    } else if d == 3 {
        '3'
    } else if d == 4 {
        '4'
    } else if d == 5 {
        '5'
    } else if d == 6 {
        '6'
    } else if d == 7 {
        '7'
    } else if d == 8 {
        '8'
    } else {
        '9'
    }
}

/// `n` written in decimal digits.
pub fn to_decimal(n: usize) -> (r: String)
    ensures
        r@ == decimal(n as nat),
{
    let mut digits: Vec<char> = Vec::new();
    let mut rest = n;
    digits.push(digit_char(rest % 10));
    rest = rest / 10;
    let ghost mut shown: nat = n as nat;
    // `digits` holds the digits found so far, the last one first.
    while rest > 0
        invariant
            digits.len() > 0,
            decimal(n as nat) == if rest == 0 {
                digits@.reverse()
            } else {
                decimal(rest as nat) + digits@.reverse()
            },
        decreases rest,
    {
        let ghost before = digits@;
        digits.push(digit_char(rest % 10));
        proof {
            assert(digits@.reverse() =~= seq![digit((rest % 10) as int)] + before.reverse());
            if rest / 10 == 0 {
                assert(decimal(rest as nat) =~= seq![digit((rest % 10) as int)]);
            } else {
                assert(decimal(rest as nat) + before.reverse() =~= decimal((rest / 10) as nat)
                    + digits@.reverse());
            }
        }
        rest = rest / 10;
    }
    let mut r = String::new();
    let mut i = digits.len();
    while i > 0
        invariant
            i <= digits.len(),
            r@ == digits@.reverse().subrange(0, digits.len() - i),
        decreases i,
    {
        i -= 1;
        push_char(&mut r, digits[i]);
        assert(r@ =~= digits@.reverse().subrange(0, digits.len() - i));
    }
    assert(digits@.reverse().subrange(0, digits.len() as int) =~= digits@.reverse());
    r
}

/// The number of bytes that the encoding of `c` takes.
pub fn utf8_len(c: char) -> (r: usize)
    ensures
        r == encode_utf8(seq![c]).len(),
        1 <= r <= 4,
{
    let v = c as u32;
    proof {
        char_is_scalar(c);
        reveal_with_fuel(encode_utf8, 2);
        assert(seq![c].drop_first() =~= Seq::<char>::empty());
        assert(seq![c][0] == c);
        assert(encode_utf8(seq![c]) =~= encode_scalar(v));
    }
    if v < 0x80 {
        1
    } else if v < 0x800 {
        2
    } else if v < 0x10000 {
        3
    } else {
        4
    }
}

/// The characters of `s`.
pub fn chars_vec(s: &str) -> (r: Vec<char>)
    ensures
        r@ == s@,
{
    let mut r: Vec<char> = Vec::new();
    let chars = s.chars();
    for c in it: chars
        invariant
            it.seq() == s@,
            r@ == it.seq().take(it.index() as int),
    {
        r.push(c);
        assert(r@ =~= it.seq().take(it.index() + 1));
    }
    assert(s@.take(s@.len() as int) =~= s@);
    r
}

/// Whether two texts are the same.
pub fn str_eq(a: &str, b: &str) -> (r: bool)
    ensures
        r == (a@ == b@),
{
    let x = a.as_bytes();
    let y = b.as_bytes();
    if x.len() != y.len() {
        return false;
    }
    let r = matches_at(x, y, 0);
    proof {
        assert(x@.subrange(0, x@.len() as int) =~= x@);
        if r {
            lemma_encode_injective(a@, b@);
        }
    }
    r
}

} // verus!
