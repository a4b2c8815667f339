//! A text with tagged byte ranges, and the way it is cut into parts for
//! display.
//!
//! The text is modelled by its UTF-8 bytes and the annotations by their
//! sequence in storage order. The order matters: where several annotations
//! cover a byte, a selection is shown, else the one added last.

use vstd::prelude::*;
use vstd::string::*;
use vstd::utf8::*;
use crate::annotation::Annotation;
use crate::annotation_type::AnnotationType;
use crate::text::{byte_len, capped, floor_boundary, floor_char_boundary, on_boundary, splice, spliced, substr};
use crate::text::{lemma_floor_boundary, lemma_floor_monotone};

verus! {

/// Where offset `p` goes when the bytes `start..end` are replaced by a text
/// that is `delta` bytes longer. An offset before the range stays, one behind
/// it moves by `delta`, and one inside moves by `delta` too but not out of
/// the range.
pub open spec fn moved(p: int, start: int, end: int, delta: int) -> int {
    if p >= end {
        capped(p + delta)
    } else if p >= start {
        if delta < 0 {
            if p + delta < start {
                start
            } else {
                p + delta
            }
        } else {
            if p + delta > end {
                end
            } else {
                p + delta
            }
        }
    } else {
        p
    }
}

/// `a` with both ends moved.
pub open spec fn moved_annotation(a: Annotation, start: int, end: int, delta: int) -> Annotation {
    Annotation {
        kind: a.kind,
        start: moved(a.start as int, start, end, delta) as usize,
        end: moved(a.end as int, start, end, delta) as usize,
    }
}

/// `a` is not empty and starts inside a text of `len` bytes.
pub open spec fn kept(a: Annotation, len: int) -> bool {
    a.start < a.end && a.start < len
}

/// The annotations `anns` after the bytes `start..end` were replaced by a text
/// that is `delta` bytes longer and the text has become `len` bytes long: each
/// one moved, and dropped if it is empty or starts behind the text.
pub open spec fn reflowed(anns: Seq<Annotation>, start: int, end: int, delta: int, len: int) -> Seq<
    Annotation,
>
    decreases anns.len(),
{
    if anns.len() == 0 {
        Seq::empty()
    } else {
        let rest = reflowed(anns.drop_last(), start, end, delta, len);
        let a = moved_annotation(anns.last(), start, end, delta);
        if kept(a, len) {
            rest.push(a)
        } else {
            rest
        }
    }
}

/// `end`, clamped to a text of `len` bytes.
pub open spec fn clamp_end(end: int, len: int) -> int {
    if end > len {
        len
    } else {
        end
    }
}

/// The text after `replace(start, end, with)`: nothing changes if `start` lies
/// behind the clamped `end`; else both are moved down to character boundaries
/// and the bytes between them give way to `with`.
pub open spec fn replaced_text(text: Seq<u8>, start: int, end: int, with: Seq<u8>) -> Seq<u8> {
    let e = clamp_end(end, text.len() as int);
    if start > e {
        text
    } else {
        spliced(text, floor_boundary(text, start), floor_boundary(text, e), with)
    }
}

/// The annotations after `replace(start, end, with)`: each one moved along
/// with the text behind the replaced bytes, and dropped if it is empty or
/// starts at or behind the end of the new text. Where `start` lies behind the
/// clamped `end` the text stays as it is and nothing moves, but what is
/// empty or starts at or behind the end of the text is dropped all the same.
pub open spec fn replaced_annotations(
    text: Seq<u8>,
    anns: Seq<Annotation>,
    start: int,
    end: int,
    with: Seq<u8>,
) -> Seq<Annotation> {
    let len = text.len() as int;
    let e = clamp_end(end, len);
    if start > e {
        reflowed(anns, len, len, 0, len)
    } else {
        let s = floor_boundary(text, start);
        let t = floor_boundary(text, e);
        reflowed(anns, s, t, with.len() - (t - s), replaced_text(text, start, end, with).len() as int)
    }
}

/// Every annotation is non-empty and starts inside a text of `len` bytes.
pub open spec fn all_kept(anns: Seq<Annotation>, len: int) -> bool {
    forall|i: int| 0 <= i < anns.len() ==> kept(#[trigger] anns[i], len)
}

/// What a reflow leaves is non-empty and starts inside the text.
pub proof fn lemma_reflowed_kept(anns: Seq<Annotation>, start: int, end: int, delta: int, len: int)
    ensures
        all_kept(reflowed(anns, start, end, delta, len), len),
        reflowed(anns, start, end, delta, len).len() <= anns.len(),
    decreases anns.len(),
{
    if anns.len() > 0 {
        lemma_reflowed_kept(anns.drop_last(), start, end, delta, len);
    }
}

/// After `replace` no annotation is empty or inverted, and none starts at or
/// behind the end of the new text, whatever the annotations were before and
/// whatever is replaced by what.
pub proof fn lemma_replace_keeps_annotations_valid(
    text: Seq<u8>,
    anns: Seq<Annotation>,
    start: int,
    end: int,
    with: Seq<u8>,
)
    ensures
        all_kept(
            replaced_annotations(text, anns, start, end, with),
            replaced_text(text, start, end, with).len() as int,
        ),
{
    let len = text.len() as int;
    let e = clamp_end(end, len);
    if start > e {
        lemma_reflowed_kept(anns, len, len, 0, len);
    } else {
        let s = floor_boundary(text, start);
        let t = floor_boundary(text, e);
        lemma_reflowed_kept(
            anns,
            s,
            t,
            with.len() - (t - s),
            replaced_text(text, start, end, with).len() as int,
        );
    }
}

/// Annotation `a` covers offset `p`.
pub open spec fn covers(a: Annotation, p: int) -> bool {
    a.start <= p < a.end
}

/// The first selection at or after index `k` that covers offset `p`.
pub open spec fn first_selection(anns: Seq<Annotation>, p: int, k: int) -> Option<int>
    decreases anns.len() - k,
{
    if k < 0 || k >= anns.len() {
        None
    } else if covers(anns[k], p) && anns[k].kind == AnnotationType::Selection {
        Some(k)
    } else {
        first_selection(anns, p, k + 1)
    }
}

/// The last of the first `n` annotations that covers offset `p`.
pub open spec fn last_covering(anns: Seq<Annotation>, p: int, n: int) -> Option<int>
    decreases n,
{
    if n <= 0 || n > anns.len() {
        None
    } else if covers(anns[n - 1], p) {
        Some(n - 1)
    } else {
        last_covering(anns, p, n - 1)
    }
}

/// The annotation that decides how offset `p` is shown: a selection that
/// covers it if there is one, else the one added last among those that cover
/// it.
pub open spec fn chosen(anns: Seq<Annotation>, p: int) -> Option<int> {
    match first_selection(anns, p, 0) {
        Some(i) => Some(i),
        None => last_covering(anns, p, anns.len() as int),
    }
}

/// `e`, or the least offset behind `p` and before `e` at which one of the
/// first `n` annotations starts.
pub open spec fn nearest_start(anns: Seq<Annotation>, p: int, e: int, n: int) -> int
    decreases n,
{
    if n <= 0 || n > anns.len() {
        e
    } else {
        let before = nearest_start(anns, p, e, n - 1);
        if p < anns[n - 1].start < before {
            anns[n - 1].start as int
        } else {
            before
        }
    }
}

/// The kind of the annotation chosen for offset `p`.
pub open spec fn kind_at(anns: Seq<Annotation>, p: int) -> Option<AnnotationType> {
    match chosen(anns, p) {
        Some(i) => Some(anns[i].kind),
        None => None,
    }
}

/// Where the stretch that is shown like offset `p` ends in a text of `len`
/// bytes: at the end of the chosen annotation or of the text, or before that
/// where another annotation starts.
pub open spec fn span_end(anns: Seq<Annotation>, p: int, len: int) -> int {
    let e = match chosen(anns, p) {
        Some(i) => clamp_end(anns[i].end as int, len),
        None => len,
    };
    nearest_start(anns, p, e, anns.len() as int)
}

/// The end and the kind of the part that starts at the boundary `start`. The
/// stretch is measured from `probe`; where its end, moved down to a character
/// boundary, does not lie behind `start`, the probe goes one byte on.
pub open spec fn part_from(text: Seq<u8>, anns: Seq<Annotation>, start: int, probe: int) -> (
    int,
    Option<AnnotationType>,
)
    decreases text.len() - probe,
{
    let end = floor_boundary(text, span_end(anns, probe, text.len() as int));
    if end > start {
        (end, kind_at(anns, probe))
    } else if probe + 1 >= text.len() {
        (text.len() as int, None)
    } else {
        part_from(text, anns, start, probe + 1)
    }
}

/// The start, the end and the kind of the part that an iterator at offset
/// `pos` gives next; none at the end of the text.
pub open spec fn next_part(text: Seq<u8>, anns: Seq<Annotation>, pos: int) -> Option<
    (int, int, Option<AnnotationType>),
> {
    if pos < 0 || pos >= text.len() {
        None
    } else {
        let start = floor_boundary(text, pos);
        let (end, kind) = part_from(text, anns, start, start);
        Some((start, end, kind))
    }
}

/// The parts that an iterator at offset `pos` gives until the text ends: the
/// bytes and the kind of each.
pub open spec fn parts_from(text: Seq<u8>, anns: Seq<Annotation>, pos: int) -> Seq<
    (Seq<u8>, Option<AnnotationType>),
>
    decreases text.len() - pos,
{
    if pos < 0 || pos >= text.len() {
        Seq::empty()
    } else {
        let part = next_part(text, anns, pos)->0;
        proof {
            lemma_next_part(text, anns, pos);
        }
        seq![(text.subrange(part.0, part.1), part.2)] + parts_from(text, anns, part.1)
    }
}

/// A part starts at the boundary at or below the offset of the iterator and
/// ends behind that offset, inside the text and between characters.
pub proof fn lemma_next_part(text: Seq<u8>, anns: Seq<Annotation>, pos: int)
    requires
        0 <= pos < text.len(),
    ensures
        next_part(text, anns, pos) is Some,
        ({
            let (start, end, kind) = next_part(text, anns, pos)->0;
            &&& start == floor_boundary(text, pos)
            &&& 0 <= start <= pos < end <= text.len()
            &&& on_boundary(text, start)
            &&& on_boundary(text, end)
        }),
{
    let start = floor_boundary(text, pos);
    lemma_floor_boundary(text, pos);
    lemma_part_from(text, anns, start, start);
    let end = part_from(text, anns, start, start).0;
    if end <= pos {
        assert(!on_boundary(text, end));
    }
}

/// The bytes of `parts`, one after the other.
pub open spec fn joined(parts: Seq<(Seq<u8>, Option<AnnotationType>)>) -> Seq<u8>
    decreases parts.len(),
{
    if parts.len() == 0 {
        Seq::empty()
    } else {
        parts[0].0 + joined(parts.drop_first())
    }
}

/// The chosen annotation, if any, covers the offset; the stretch ends behind
/// the offset and inside the text.
pub proof fn lemma_span_end(anns: Seq<Annotation>, p: int, len: int)
    requires
        0 <= p < len,
    ensures
        p < span_end(anns, p, len) <= len,
{
    let e = match chosen(anns, p) {
        Some(i) => clamp_end(anns[i].end as int, len),
        None => len,
    };
    lemma_chosen_covers(anns, p);
    lemma_nearest_start(anns, p, e, anns.len() as int);
}

/// The chosen annotation covers the offset.
pub proof fn lemma_chosen_covers(anns: Seq<Annotation>, p: int)
    ensures
        chosen(anns, p) is Some ==> 0 <= chosen(anns, p)->0 < anns.len() && covers(
            anns[chosen(anns, p)->0],
            p,
        ),
{
    lemma_first_selection(anns, p, 0);
    lemma_last_covering(anns, p, anns.len() as int);
}

proof fn lemma_first_selection(anns: Seq<Annotation>, p: int, k: int)
    ensures
        first_selection(anns, p, k) is Some ==> 0 <= first_selection(anns, p, k)->0 < anns.len()
            && covers(anns[first_selection(anns, p, k)->0], p),
    decreases anns.len() - k,
{
    if 0 <= k < anns.len() {
        lemma_first_selection(anns, p, k + 1);
    }
}

proof fn lemma_last_covering(anns: Seq<Annotation>, p: int, n: int)
    ensures
        last_covering(anns, p, n) is Some ==> 0 <= last_covering(anns, p, n)->0 < anns.len()
            && covers(anns[last_covering(anns, p, n)->0], p),
    decreases n,
{
    if 0 < n <= anns.len() {
        lemma_last_covering(anns, p, n - 1);
    }
}

proof fn lemma_nearest_start(anns: Seq<Annotation>, p: int, e: int, n: int)
    requires
        p < e,
    ensures
        p < nearest_start(anns, p, e, n) <= e,
    decreases n,
{
    if 0 < n <= anns.len() {
        lemma_nearest_start(anns, p, e, n - 1);
    }
}

/// A part ends behind its start, inside the text and between characters.
pub proof fn lemma_part_from(text: Seq<u8>, anns: Seq<Annotation>, start: int, probe: int)
    requires
        0 <= start <= probe < text.len(),
    ensures
        start < part_from(text, anns, start, probe).0 <= text.len(),
        on_boundary(text, part_from(text, anns, start, probe).0),
    decreases text.len() - probe,
{
    let e = span_end(anns, probe, text.len() as int);
    lemma_span_end(anns, probe, text.len() as int);
    lemma_floor_boundary(text, e);
    let end = floor_boundary(text, e);
    if end > start {
    } else if probe + 1 >= text.len() {
    } else {
        lemma_part_from(text, anns, start, probe + 1);
    }
}

/// The parts, put together again, are the text from the boundary at or
/// below the offset of the iterator to the end: nothing is left out, nothing
/// comes twice, whatever the annotations are.
pub proof fn lemma_parts_cover(text: Seq<u8>, anns: Seq<Annotation>, pos: int)
    requires
        0 <= pos,
    ensures
        pos < text.len() ==> joined(parts_from(text, anns, pos)) == text.subrange(
            floor_boundary(text, pos),
            text.len() as int,
        ),
        pos >= text.len() ==> joined(parts_from(text, anns, pos)) == Seq::<u8>::empty(),
    decreases text.len() - pos,
{
    if pos < text.len() {
        lemma_next_part(text, anns, pos);
        let part = next_part(text, anns, pos)->0;
        lemma_parts_cover(text, anns, part.1);
        lemma_floor_boundary(text, part.1);
        let rest = parts_from(text, anns, part.1);
        let all = parts_from(text, anns, pos);
        assert(all.drop_first() =~= rest);
        assert(joined(all) =~= text.subrange(part.0, text.len() as int));
    }
}

/// A text with annotations.
#[derive(Debug)]
pub struct AnnotatedString {
    string: String,
    annotations: Vec<Annotation>,
}

/// A stretch of an annotated string that is shown in one way.
pub struct AnnotatedStringPart<'a> {
    pub string: &'a str,
    pub annotation_type: Option<AnnotationType>,
}

/// A walk over the parts of an annotated string.
pub struct AnnotatedStringIterator<'a> {
    pub annotated_string: &'a AnnotatedString,
    pub current_idx: usize,
}

/// The bytes and kinds of `parts`.
pub open spec fn parts_view(parts: Seq<AnnotatedStringPart>) -> Seq<(Seq<u8>, Option<AnnotationType>)> {
    parts.map_values(|p: AnnotatedStringPart| (p.string.spec_bytes(), p.annotation_type))
}

impl AnnotatedString {
    /// The UTF-8 bytes of the text.
    pub closed spec fn text(&self) -> Seq<u8> {
        encode_utf8(self.string@)
    }

    /// The annotations, in the order in which they were added.
    pub closed spec fn annotations(&self) -> Seq<Annotation> {
        self.annotations@
    }

    /// The empty text without annotations.
    pub fn new() -> (r: Self)
        ensures
            r.text() == Seq::<u8>::empty(),
            r.annotations() == Seq::<Annotation>::empty(),
    {
        Self { string: String::new(), annotations: Vec::new() }
    }

    /// The text `string` without annotations.
    pub fn from(string: &str) -> (r: Self)
        ensures
            r.text() == string.spec_bytes(),
            r.annotations() == Seq::<Annotation>::empty(),
    {
        Self { string: string.to_owned(), annotations: Vec::new() }
    }

    /// The length of the text in bytes.
    pub fn len(&self) -> (n: usize)
        ensures
            n == self.text().len(),
    {
        byte_len(self.string.as_str())
    }

    /// The text.
    pub fn as_str(&self) -> (s: &str)
        ensures
            s.spec_bytes() == self.text(),
    {
        self.string.as_str()
    }

    /// A copy of the text.
    pub fn to_string(&self) -> (s: String)
        ensures
            encode_utf8(s@) == self.text(),
    {
        self.string.clone()
    }

    /// The number of annotations.
    pub fn annotation_count(&self) -> (n: usize)
        ensures
            n == self.annotations().len(),
    {
        self.annotations.len()
    }

    /// Annotation `i`.
    pub fn annotation(&self, i: usize) -> (a: Annotation)
        requires
            i < self.annotations().len(),
        ensures
            a == self.annotations()[i as int],
    {
        self.annotations[i]
    }

    /// Adds an annotation behind those that are there. Nothing is merged and
    /// nothing is checked against the text.
    pub fn add_annotation(&mut self, annotation_type: AnnotationType, start: usize, end: usize)
        requires
            start <= end,
        ensures
            final(self).text() == old(self).text(),
            final(self).annotations() == old(self).annotations().push(
                Annotation { kind: annotation_type, start, end },
            ),
    {
        self.annotations.push(Annotation { kind: annotation_type, start, end });
    }

    /// Replaces the bytes `start..end` of the text by `new_string` and moves
    /// the annotations along. `end` is clamped to the text; the text stays as
    /// it is if `start` lies behind it. Both ends are moved down to character
    /// boundaries. Each end of each annotation is moved as `moved` says, and
    /// an annotation that is empty or starts at or behind the end of the new
    /// text is dropped, in every case.
    pub fn replace(&mut self, start: usize, end: usize, new_string: &str)
        ensures
            final(self).text() == replaced_text(
                old(self).text(),
                start as int,
                end as int,
                new_string.spec_bytes(),
            ),
            final(self).annotations() == replaced_annotations(
                old(self).text(),
                old(self).annotations(),
                start as int,
                end as int,
                new_string.spec_bytes(),
            ),
            all_kept(final(self).annotations(), final(self).text().len() as int),
    {
        proof {
            lemma_replace_keeps_annotations_valid(
                self.text(),
                self.annotations(),
                start as int,
                end as int,
                new_string.spec_bytes(),
            );
        }
        let len = self.len();
        let end = if end > len { len } else { end };
        if start > end {
            self.reflow(len, len, false, 0);
            return;
        }
        proof {
            lemma_floor_monotone(self.text(), start as int, end as int);
        }
        let start = floor_char_boundary(self.string.as_str(), start);
        let end = floor_char_boundary(self.string.as_str(), end);
        let string = splice(self.string.as_str(), start, end, new_string);
        self.string = string;
        let new_len = byte_len(new_string);
        let replaced_range_len = end - start;
        let shortened = new_len < replaced_range_len;
        let len_difference = if shortened {
            replaced_range_len - new_len
        } else {
            new_len - replaced_range_len
        };
        self.reflow(start, end, shortened, len_difference);
    }

    fn reflow(&mut self, start: usize, end: usize, shortened: bool, len_difference: usize)
        requires
            start <= end,
            shortened ==> len_difference <= end - start,
        ensures
            final(self).text() == old(self).text(),
            final(self).annotations() == reflowed(
                old(self).annotations(),
                start as int,
                end as int,
                if shortened {
                    -(len_difference as int)
                } else {
                    len_difference as int
                },
                old(self).text().len() as int,
            ),
    {
        let total = self.len();
        let ghost delta = if shortened {
            -(len_difference as int)
        } else {
            len_difference as int
        };
        let ghost anns = self.annotations@;
        let mut annotations: Vec<Annotation> = Vec::new();
        let mut i: usize = 0;
        assert(anns.take(0) =~= Seq::<Annotation>::empty());
        while i < self.annotations.len()
            invariant
                i <= self.annotations.len(),
                anns == self.annotations@,
                start <= end,
                shortened ==> len_difference <= end - start,
                delta == if shortened {
                    -(len_difference as int)
                } else {
                    len_difference as int
                },
                annotations@ == reflowed(anns.take(i as int), start as int, end as int, delta, total as int),
            decreases self.annotations.len() - i,
        {
            let a = self.annotations[i];
            let moved_start = Self::move_offset(a.start, start, end, shortened, len_difference);
            let moved_end = Self::move_offset(a.end, start, end, shortened, len_difference);
            proof {
                assert(anns.take(i + 1).drop_last() =~= anns.take(i as int));
                assert(anns.take(i + 1).last() == a);
            }
            if moved_start < moved_end && moved_start < total {
                annotations.push(Annotation { kind: a.kind, start: moved_start, end: moved_end });
            }
            i += 1;
        }
        assert(anns.take(anns.len() as int) =~= anns);
        self.annotations = annotations;
    }

    fn move_offset(p: usize, start: usize, end: usize, shortened: bool, len_difference: usize) -> (r:
        usize)
        requires
            start <= end,
            shortened ==> len_difference <= end - start,
        ensures
            r == moved(
                p as int,
                start as int,
                end as int,
                if shortened {
                    -(len_difference as int)
                } else {
                    len_difference as int
                },
            ),
    {
        if p >= end {
            if shortened {
                p.saturating_sub(len_difference)
            } else {
                p.saturating_add(len_difference)
            }
        } else if p >= start {
            if shortened {
                let q = p.saturating_sub(len_difference);
                if q < start {
                    start
                } else {
                    q
                }
            } else {
                let q = p.saturating_add(len_difference);
                if q > end {
                    end
                } else {
                    q
                }
            }
        } else {
            p
        }
    }

    /// Removes the text before offset `until`.
    pub fn truncate_left_until(&mut self, until: usize)
        ensures
            final(self).text() == replaced_text(old(self).text(), 0, until as int, Seq::empty()),
            final(self).annotations() == replaced_annotations(
                old(self).text(),
                old(self).annotations(),
                0,
                until as int,
                Seq::empty(),
            ),
    {
        proof {
            reveal_strlit("");
            assert(""@ =~= Seq::<char>::empty());
        }
        self.replace(0, until, "");
    }

    /// Removes the text from offset `from` on.
    pub fn truncate_right_from(&mut self, from: usize)
        ensures
            final(self).text() == replaced_text(
                old(self).text(),
                from as int,
                old(self).text().len() as int,
                Seq::empty(),
            ),
            final(self).annotations() == replaced_annotations(
                old(self).text(),
                old(self).annotations(),
                from as int,
                old(self).text().len() as int,
                Seq::empty(),
            ),
    {
        proof {
            reveal_strlit("");
            assert(""@ =~= Seq::<char>::empty());
        }
        let len = self.len();
        self.replace(from, len, "");
    }

    /// A walk over the parts, from the start of the text.
    pub fn iter<'a>(&'a self) -> (it: AnnotatedStringIterator<'a>)
        ensures
            it.annotated_string == self,
            it.current_idx == 0,
    {
        AnnotatedStringIterator { annotated_string: self, current_idx: 0 }
    }

    /// The parts of the text, in order. Put together they are the text.
    pub fn parts<'a>(&'a self) -> (r: Vec<AnnotatedStringPart<'a>>)
        ensures
            parts_view(r@) == parts_from(self.text(), self.annotations(), 0),
            joined(parts_view(r@)) == self.text(),
    {
        let mut it = self.iter();
        let mut r: Vec<AnnotatedStringPart<'a>> = Vec::new();
        let ghost all = parts_from(self.text(), self.annotations(), 0);
        assert(parts_view(r@) =~= Seq::empty());
        loop
            invariant
                it.annotated_string == self,
                all == parts_from(self.text(), self.annotations(), 0),
                all == parts_view(r@) + parts_from(self.text(), self.annotations(), it.current_idx as int),
            ensures
                all == parts_view(r@),
            decreases self.text().len() - it.current_idx,
        {
            let ghost before = parts_view(r@);
            let ghost pos = it.current_idx;
            proof {
                if pos < self.text().len() {
                    lemma_next_part(self.text(), self.annotations(), pos as int);
                }
            }
            match it.next() {
                Some(part) => {
                    r.push(part);
                    assert(parts_view(r@) =~= before.push((part.string.spec_bytes(), part.annotation_type)));
                    assert(all =~= parts_view(r@) + parts_from(
                        self.text(),
                        self.annotations(),
                        it.current_idx as int,
                    ));
                },
                None => {
                    assert(all =~= parts_view(r@));
                    break ;
                },
            }
        }
        proof {
            lemma_parts_cover(self.text(), self.annotations(), 0);
            if self.text().len() > 0 {
                assert(self.text().subrange(0, self.text().len() as int) =~= self.text());
            }
        }
        r
    }
}

impl Default for AnnotatedString {
    fn default() -> (r: Self)
        ensures
            r.text() == Seq::<u8>::empty(),
            r.annotations() == Seq::<Annotation>::empty(),
    {
        Self::new()
    }
}

impl<'a> AnnotatedStringIterator<'a> {
    /// The next part, or `None` at the end of the text.
    ///
    /// The part starts at the character boundary at or below the current
    /// offset. It is shown as the annotation chosen for its first byte says,
    /// and runs to the end of that annotation, or of the text if there is
    /// none, but not beyond the start of another annotation. Its end is moved
    /// down to a character boundary; where that leaves nothing, the stretch is
    /// measured again from one byte further on.
    pub fn next(&mut self) -> (r: Option<AnnotatedStringPart<'a>>)
        ensures
            final(self).annotated_string == old(self).annotated_string,
            match next_part(
                old(self).annotated_string.text(),
                old(self).annotated_string.annotations(),
                old(self).current_idx as int,
            ) {
                None => r is None && final(self).current_idx == old(self).current_idx,
                Some((start, end, kind)) => r is Some && r->0.annotation_type == kind
                    && r->0.string.spec_bytes() == old(self).annotated_string.text().subrange(start, end)
                    && final(self).current_idx == end,
            },
    {
        let source = self.annotated_string;
        let s = source.string.as_str();
        let len = byte_len(s);
        if self.current_idx >= len {
            return None;
        }
        let ghost text = source.text();
        let ghost anns = source.annotations();
        let start_idx = floor_char_boundary(s, self.current_idx);
        proof {
            lemma_floor_boundary(text, self.current_idx as int);
        }
        let mut probe = start_idx;
        let mut end_idx = len;
        let mut kind: Option<AnnotationType> = None;
        loop
            invariant
                source == self.annotated_string,
                s.spec_bytes() == text,
                text == source.text(),
                anns == source.annotations(),
                len == text.len(),
                start_idx <= probe < len,
                on_boundary(text, start_idx as int),
                part_from(text, anns, start_idx as int, start_idx as int) == part_from(
                    text,
                    anns,
                    start_idx as int,
                    probe as int,
                ),
            ensures
                start_idx < end_idx <= len,
                on_boundary(text, end_idx as int),
                (end_idx as int, kind) == part_from(text, anns, start_idx as int, start_idx as int),
            decreases len - probe,
        {
            proof {
                lemma_part_from(text, anns, start_idx as int, probe as int);
                lemma_span_end(anns, probe as int, len as int);
            }
            let (span, chosen_kind) = source.span_at(probe, len);
            let end = floor_char_boundary(s, span);
            if end > start_idx {
                end_idx = end;
                kind = chosen_kind;
                break ;
            }
            if probe + 1 >= len {
                end_idx = len;
                kind = None;
                break ;
            }
            probe += 1;
        }
        self.current_idx = end_idx;
        Some(AnnotatedStringPart { string: substr(s, start_idx, end_idx), annotation_type: kind })
    }
}

impl AnnotatedString {
    fn span_at(&self, p: usize, len: usize) -> (r: (usize, Option<AnnotationType>))
        requires
            p < len,
        ensures
            r.0 == span_end(self.annotations(), p as int, len as int),
            r.1 == kind_at(self.annotations(), p as int),
    {
        let ghost anns = self.annotations@;
        let mut selection: Option<usize> = None;
        let mut last: Option<usize> = None;
        let mut i: usize = 0;
        while i < self.annotations.len()
            invariant
                i <= self.annotations.len(),
                anns == self.annotations@,
                match selection {
                    Some(k) => first_selection(anns, p as int, 0) == Some(k as int) && k < anns.len(),
                    None => first_selection(anns, p as int, 0) == first_selection(anns, p as int, i as int),
                },
                match last {
                    Some(k) => last_covering(anns, p as int, i as int) == Some(k as int) && k < anns.len(),
                    None => last_covering(anns, p as int, i as int) is None,
                },
            decreases self.annotations.len() - i,
        {
            let a = self.annotations[i];
            if a.start <= p && a.end > p {
                if selection.is_none() && a.kind == AnnotationType::Selection {
                    selection = Some(i);
                }
                last = Some(i);
            }
            i += 1;
        }
        let pick = if selection.is_some() {
            selection
        } else {
            last
        };
        let (mut end_idx, kind) = match pick {
            Some(k) => {
                let a = self.annotations[k];
                (if a.end > len { len } else { a.end }, Some(a.kind))
            },
            None => (len, None),
        };
        let ghost e = end_idx;
        let mut j: usize = 0;
        while j < self.annotations.len()
            invariant
                j <= self.annotations.len(),
                anns == self.annotations@,
                end_idx == nearest_start(anns, p as int, e as int, j as int),
            decreases self.annotations.len() - j,
        {
            let a = self.annotations[j];
            if a.start > p && a.start < end_idx {
                end_idx = a.start;
            }
            j += 1;
        }
        (end_idx, kind)
    }
}

} // verus!
