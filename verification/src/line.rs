//! A line of text and its grapheme clusters.
//!
//! A line is modelled by its UTF-8 bytes. The grapheme clusters of a text are
//! given by the offsets at which they start; everything a line answers about
//! clusters, widths and positions is a function of its bytes and those
//! offsets.

use std::ops::Range;
use vstd::prelude::*;
use vstd::string::*;
use vstd::utf8::*;
use crate::annotated_string::{replaced_annotations, replaced_text, AnnotatedString};
use crate::annotation::Annotation;
use crate::annotation_type::AnnotationType;
use crate::grapheme_width::GraphemeWidth;
use crate::highlight::highlighter::{HighlightAnnotation, HighlightState, Highlighter};
use crate::highlight::registry::LanguageHighlighter;
use crate::text::{byte_len, capped, find_matches, insert_at, lemma_boundary, lemma_encode_concat};
use crate::text::{lemma_floor_boundary, match_positions};
use crate::text::{floor_boundary, floor_char_boundary, on_boundary, splice, spliced, substr};
use crate::text_fragment::TextFragment;
use crate::text::chars_vec;
use crate::unicode::{grapheme_start_indices, push_char, str_width_cjk};
use crate::unicode::{alphanumeric_char, cjk_width, control_char, grapheme_starts, well_segmented};
use crate::unicode::whitespace_char;

verus! {

/// The byte offsets at which the grapheme clusters of `text` start.
pub open spec fn cluster_starts(text: Seq<u8>) -> Seq<usize> {
    grapheme_starts(decode_utf8(text))
}

/// The number of grapheme clusters of `text`.
pub open spec fn cluster_count(text: Seq<u8>) -> nat {
    cluster_starts(text).len()
}

/// The clusters of `text` cut it into consecutive non-empty pieces.
pub open spec fn segmented(text: Seq<u8>) -> bool {
    well_segmented(text, cluster_starts(text))
}

/// The byte offset at which cluster `i` starts; the length of the text for
/// an index that is not one of a cluster.
pub open spec fn cluster_begin(text: Seq<u8>, i: int) -> int {
    if 0 <= i < cluster_count(text) {
        cluster_starts(text)[i] as int
    } else {
        text.len() as int
    }
}

/// The bytes of cluster `i`.
pub open spec fn cluster_bytes(text: Seq<u8>, i: int) -> Seq<u8> {
    text.subrange(cluster_begin(text, i), cluster_begin(text, i + 1))
}

/// The characters of cluster `i`.
pub open spec fn cluster_chars(text: Seq<u8>, i: int) -> Seq<char> {
    decode_utf8(cluster_bytes(text, i))
}

/// Every character of `s` is white space.
pub open spec fn all_whitespace(s: Seq<char>) -> bool {
    forall|i: int| 0 <= i < s.len() ==> whitespace_char(#[trigger] s[i])
}

/// The character shown in place of the cluster `g`, if it is not shown as it
/// is: a space for a tab, an open box for other visible white space, a
/// rectangle for a lone control character and a middle dot for anything else
/// without width.
pub open spec fn glyph_for(g: Seq<char>) -> Option<char> {
    if g == seq![' '] {
        None
    } else if g == seq!['\t'] {
        Some(' ')
    } else if cjk_width(g) > 0 && all_whitespace(g) {
        Some('\u{2423}')
    } else if cjk_width(g) == 0 {
        if g.len() == 1 && control_char(g[0]) {
            Some('\u{25af}')
        } else {
            Some('\u{b7}')
        }
    } else {
        None
    }
}

/// The columns that the cluster `g` takes: two if it is wider than one
/// column, else one.
pub open spec fn width_for(g: Seq<char>) -> GraphemeWidth {
    if cjk_width(g) > 1 {
        GraphemeWidth::Full
    } else {
        GraphemeWidth::Half
    }
}

/// The columns that cluster `i` of `text` takes; 0 where there is no such
/// cluster.
pub open spec fn cluster_cols(text: Seq<u8>, i: int) -> nat {
    if 0 <= i < cluster_count(text) {
        width_for(cluster_chars(text, i)).cols()
    } else {
        0
    }
}

/// The columns that the first `g` clusters of `text` take together.
pub open spec fn width_upto(text: Seq<u8>, g: int) -> nat
    decreases g,
{
    if g <= 0 {
        0
    } else {
        width_upto(text, g - 1) + cluster_cols(text, g - 1)
    }
}

/// The first cluster at or after `k` that ends beyond column `w`; the number
/// of clusters if there is none.
pub open spec fn first_cluster_past(text: Seq<u8>, w: int, k: int) -> int
    decreases cluster_count(text) - k,
{
    if k < 0 || k >= cluster_count(text) {
        cluster_count(text) as int
    } else if width_upto(text, k + 1) > w {
        k
    } else {
        first_cluster_past(text, w, k + 1)
    }
}

/// The first cluster at or after `k` that holds byte `b`.
pub open spec fn cluster_at_from(text: Seq<u8>, b: int, k: int) -> Option<int>
    decreases cluster_count(text) - k,
{
    if k < 0 || k >= cluster_count(text) {
        None
    } else if cluster_begin(text, k) <= b < cluster_begin(text, k + 1) {
        Some(k)
    } else {
        cluster_at_from(text, b, k + 1)
    }
}

/// The cluster that holds byte `b`. The offset at which the text ends is the
/// place behind the last cluster and has the index one past it; beyond that
/// there is nothing.
pub open spec fn cluster_at(text: Seq<u8>, b: int) -> Option<int> {
    if b > text.len() {
        None
    } else if b == text.len() {
        Some(cluster_count(text) as int)
    } else {
        cluster_at_from(text, b, 0)
    }
}

/// `text` with `c` put in front of cluster `at`, or at the end if there is no
/// such cluster.
pub open spec fn inserted(text: Seq<u8>, c: char, at: int) -> Seq<u8> {
    let b = cluster_begin(text, at);
    spliced(text, b, b, encode_utf8(seq![c]))
}

/// `text` without cluster `at`; `text` itself if there is no such cluster.
pub open spec fn removed(text: Seq<u8>, at: int) -> Seq<u8> {
    if 0 <= at < cluster_count(text) {
        spliced(text, cluster_begin(text, at), cluster_begin(text, at + 1), Seq::empty())
    } else {
        text
    }
}

/// Where a byte range `start..end` is cut once it is clamped to the text and
/// moved down to character boundaries.
pub open spec fn clamped(text: Seq<u8>, i: int) -> int {
    floor_boundary(text, if i > text.len() { text.len() as int } else { i })
}

/// `text` without the bytes `start..end`, the range clamped to the text and to
/// character boundaries; `text` itself if nothing is left of the range.
pub open spec fn range_removed(text: Seq<u8>, start: int, end: int) -> Seq<u8> {
    let s = clamped(text, start);
    let e = clamped(text, end);
    if start < end && s < e {
        spliced(text, s, e, Seq::empty())
    } else {
        text
    }
}

/// Every character of cluster `i` is white space.
pub open spec fn whitespace_at(text: Seq<u8>, i: int) -> bool {
    0 <= i < cluster_count(text) && all_whitespace(cluster_chars(text, i))
}

/// `c` separates words: white space, a comma or a semicolon.
pub open spec fn delimiter_char(c: char) -> bool {
    whitespace_char(c) || c == ',' || c == ';' || c == '\n' || c == '\r'
}

/// Every character of cluster `i` separates words.
pub open spec fn delimiter_at(text: Seq<u8>, i: int) -> bool {
    0 <= i < cluster_count(text) && forall|k: int|
        0 <= k < cluster_chars(text, i).len() ==> delimiter_char(#[trigger] cluster_chars(text, i)[k])
}

/// `c` may stand in an identifier.
pub open spec fn identifier_char(c: char) -> bool {
    alphanumeric_char(c) || c == '_'
}

/// Every character of cluster `i` may stand in an identifier.
pub open spec fn identifier_at(text: Seq<u8>, i: int) -> bool {
    0 <= i < cluster_count(text) && forall|k: int|
        0 <= k < cluster_chars(text, i).len() ==> identifier_char(#[trigger] cluster_chars(text, i)[k])
}

/// Cluster `i` is the single character `c`.
pub open spec fn cluster_is(text: Seq<u8>, i: int, c: char) -> bool {
    0 <= i < cluster_count(text) && cluster_chars(text, i) == seq![c]
}

/// What a scan over the clusters of a line looks for.
pub enum Stop {
    /// The first cluster of a word: an identifier cluster or `<`.
    WordStart,
    /// The last cluster of a word, seen from the right: an identifier cluster
    /// or `>`.
    WordEnd,
    /// A cluster that is not part of an identifier.
    NotIdentifier,
    /// The cluster `<`.
    AngleOpen,
    /// The cluster `>`.
    AngleClose,
}

/// Cluster `i` of `text` is what `stop` looks for.
pub open spec fn stops_at(text: Seq<u8>, stop: Stop, i: int) -> bool {
    match stop {
        Stop::WordStart => identifier_at(text, i) || cluster_is(text, i, '<'),
        Stop::WordEnd => identifier_at(text, i) || cluster_is(text, i, '>'),
        Stop::NotIdentifier => !identifier_at(text, i),
        Stop::AngleOpen => cluster_is(text, i, '<'),
        Stop::AngleClose => cluster_is(text, i, '>'),
    }
}

/// The first index at or after `from` that is a cluster `stop` looks for, or
/// that is past the last cluster.
pub open spec fn next_stop(text: Seq<u8>, stop: Stop, from: int) -> int
    decreases cluster_count(text) - from,
{
    if from >= cluster_count(text) || stops_at(text, stop, from) {
        from
    } else {
        next_stop(text, stop, from + 1)
    }
}

/// The last index at or before `from` whose left neighbour is a cluster that
/// `stop` looks for, or that is 0.
pub open spec fn prev_stop_before(text: Seq<u8>, stop: Stop, from: int) -> int
    decreases from,
{
    if from <= 0 || stops_at(text, stop, from - 1) {
        from
    } else {
        prev_stop_before(text, stop, from - 1)
    }
}

/// The last index at or before `from` that is a cluster `stop` looks for, or
/// that is 0.
pub open spec fn prev_stop_at(text: Seq<u8>, stop: Stop, from: int) -> int
    decreases from,
{
    if from <= 0 || stops_at(text, stop, from) {
        from
    } else {
        prev_stop_at(text, stop, from - 1)
    }
}

/// Where the word before index `g` starts. A word is a run of identifier
/// clusters, or what stands between `<` and `>`. There is none if only
/// separators stand before `g`.
pub open spec fn word_start_before(text: Seq<u8>, g: int) -> Option<int> {
    let after_word = prev_stop_before(text, Stop::WordEnd, g);
    if g <= 0 || after_word <= 0 {
        None
    } else if cluster_is(text, after_word - 1, '>') {
        Some(prev_stop_at(text, Stop::AngleOpen, after_word - 1))
    } else {
        Some(prev_stop_before(text, Stop::NotIdentifier, after_word - 1))
    }
}

/// Where the next word at or after index `g` starts, if there is one.
pub open spec fn word_start_from(text: Seq<u8>, g: int) -> Option<int> {
    let start = next_stop(text, Stop::WordStart, g);
    if start < cluster_count(text) {
        Some(start)
    } else {
        None
    }
}

/// The index behind the last cluster of the next word at or after index `g`.
/// There is none if no word follows, or if a `<` is never closed.
pub open spec fn word_end_from(text: Seq<u8>, g: int) -> Option<int> {
    let start = next_stop(text, Stop::WordStart, g);
    if start >= cluster_count(text) {
        None
    } else if cluster_is(text, start, '<') {
        let close = next_stop(text, Stop::AngleClose, start + 1);
        if close < cluster_count(text) {
            Some(close + 1)
        } else {
            None
        }
    } else {
        Some(next_stop(text, Stop::NotIdentifier, start))
    }
}

/// Offset `p` is where a cluster starts or where the text ends.
pub open spec fn cluster_edge(text: Seq<u8>, p: int) -> bool {
    p == text.len() || (cluster_at(text, p) is Some && cluster_begin(text, cluster_at(text, p)->0) == p)
}

/// A hit of `len` bytes at offset `b` starts and ends between clusters.
pub open spec fn aligned(text: Seq<u8>, b: int, len: int) -> bool {
    b < text.len() && cluster_edge(text, b) && cluster_edge(text, b + len)
}

/// Of the hits at `positions`, those that start and end between clusters,
/// each with the index of the cluster at which it starts.
pub open spec fn aligned_matches(text: Seq<u8>, len: int, positions: Seq<int>) -> Seq<(int, int)>
    decreases positions.len(),
{
    if positions.len() == 0 {
        Seq::empty()
    } else {
        let rest = aligned_matches(text, len, positions.drop_last());
        let b = positions.last();
        if aligned(text, b, len) {
            rest.push((b, cluster_at(text, b)->0))
        } else {
            rest
        }
    }
}

/// The hits of `query` in the bytes `start..end` of `text` that start and end
/// between clusters: byte offset and cluster index of each, from the left.
pub open spec fn line_matches(text: Seq<u8>, query: Seq<u8>, start: int, end: int) -> Seq<(int, int)> {
    let e = if end > text.len() { text.len() as int } else { end };
    if 0 <= start <= e {
        aligned_matches(text, query.len() as int, match_positions(text, query, start, e))
    } else {
        Seq::empty()
    }
}

/// The cluster at which the first hit of `query` at or after cluster `from`
/// starts. Nothing is found from the end of the line on.
pub open spec fn first_match_from(text: Seq<u8>, query: Seq<u8>, from: int) -> Option<int> {
    let hits = line_matches(text, query, cluster_begin(text, from), text.len() as int);
    if from < 0 || from >= cluster_count(text) || hits.len() == 0 {
        None
    } else {
        Some(hits[0].1)
    }
}

/// The cluster at which the last hit of `query` that ends at or before cluster
/// `from` starts. Nothing is found before the start of the line, nor from an
/// index that is past the end.
pub open spec fn last_match_before(text: Seq<u8>, query: Seq<u8>, from: int) -> Option<int> {
    let hits = line_matches(text, query, 0, cluster_begin(text, from));
    if from <= 0 || from > cluster_count(text) || hits.len() == 0 {
        None
    } else {
        Some(hits.last().1)
    }
}

/// `r` is `s`, as a machine integer.
pub open spec fn same_index(r: Option<usize>, s: Option<int>) -> bool {
    match s {
        Some(i) => r == Some(i as usize) && 0 <= i <= usize::MAX,
        None => r is None,
    }
}

/// `hits`, with mathematical integers.
pub open spec fn hits_view(hits: Seq<(usize, usize)>) -> Seq<(int, int)> {
    hits.map_values(|h: (usize, usize)| (h.0 as int, h.1 as int))
}

/// The annotations that the first `n` of `highlights` give: one for each
/// whose ends are in order.
pub open spec fn from_highlights(highlights: Seq<HighlightAnnotation>, n: int) -> Seq<Annotation>
    decreases n,
{
    if n <= 0 || n > highlights.len() {
        Seq::empty()
    } else {
        let rest = from_highlights(highlights, n - 1);
        let h = highlights[n - 1];
        if h.start <= h.end {
            rest.push(Annotation { kind: h.annotation_type, start: h.start, end: h.end })
        } else {
            rest
        }
    }
}

/// The annotations that the first `n` of `hits` give for a query of
/// `query_len` bytes: a selected match for a hit at cluster `selected`, a
/// match for every other.
pub open spec fn from_matches(hits: Seq<(int, int)>, query_len: int, selected: Option<usize>, n: int) -> Seq<
    Annotation,
>
    decreases n,
{
    if n <= 0 || n > hits.len() {
        Seq::empty()
    } else {
        from_matches(hits, query_len, selected, n - 1).push(
            Annotation {
                kind: if selected == Some(hits[n - 1].1 as usize) {
                    AnnotationType::SelectedMatch
                } else {
                    AnnotationType::Match
                },
                start: hits[n - 1].0 as usize,
                end: (hits[n - 1].0 + query_len) as usize,
            },
        )
    }
}

/// The annotation for the selected bytes of a line of `len` bytes, if any of
/// them lie on the line.
pub open spec fn from_selection(selection: Option<Range<usize>>, len: int) -> Seq<Annotation> {
    match selection {
        Some(range) => {
            let end = if range.end > len {
                len
            } else {
                range.end as int
            };
            if range.start < end {
                seq![Annotation { kind: AnnotationType::Selection, start: range.start, end: end as usize }]
            } else {
                Seq::empty()
            }
        },
        None => Seq::empty(),
    }
}

/// The annotations of a line before it is cut to the window: those of the
/// highlighter, then one for each hit of the query, then the selection.
pub open spec fn line_annotations_of(
    text: Seq<u8>,
    highlights: Seq<HighlightAnnotation>,
    query: Option<Seq<u8>>,
    selected_match: Option<usize>,
    selection: Option<Range<usize>>,
) -> Seq<Annotation> {
    let matches = match query {
        Some(q) => if q.len() > 0 {
            let hits = line_matches(text, q, 0, text.len() as int);
            from_matches(hits, q.len() as int, selected_match, hits.len() as int)
        } else {
            Seq::empty()
        },
        None => Seq::empty(),
    };
    from_highlights(highlights, highlights.len() as int) + matches + from_selection(
        selection,
        text.len() as int,
    )
}

/// The shown text and annotations `shown` of the window `byte_start..byte_end`
/// of the line `text`, after each cluster from the `k`-th on that lies in the
/// window and is shown as another character has given way to that character.
/// The clusters are taken from the right, so that the offsets of those still
/// to come stay as they are.
pub open spec fn substituted(
    text: Seq<u8>,
    shown: (Seq<u8>, Seq<Annotation>),
    byte_start: int,
    byte_end: int,
    k: int,
) -> (Seq<u8>, Seq<Annotation>)
    decreases cluster_count(text) - k,
{
    if k < 0 || k >= cluster_count(text) {
        shown
    } else {
        let after = substituted(text, shown, byte_start, byte_end, k + 1);
        let begin = cluster_begin(text, k);
        let end = cluster_begin(text, k + 1);
        let s = if begin < byte_start {
            0
        } else {
            begin - byte_start
        };
        let e = s + (end - begin);
        let glyph = glyph_for(cluster_chars(text, k));
        if begin < byte_end && end > byte_start && glyph is Some && s < after.0.len() && e
            <= after.0.len() {
            (
                replaced_text(after.0, s, e, encode_utf8(seq![glyph->0])),
                replaced_annotations(after.0, after.1, s, e, encode_utf8(seq![glyph->0])),
            )
        } else {
            after
        }
    }
}

/// What is shown of the line `text` with the annotations `anns` in the
/// columns `from_col..to_col`: the text is cut behind the window and then
/// before it, at the starts of the clusters that hold those columns, the
/// annotations move along, and clusters that are shown as another character
/// give way to it.
pub open spec fn window(text: Seq<u8>, anns: Seq<Annotation>, from_col: int, to_col: int) -> (
    Seq<u8>,
    Seq<Annotation>,
) {
    let byte_start = cluster_begin(text, first_cluster_past(text, from_col, 0));
    let byte_end = cluster_begin(text, first_cluster_past(text, to_col, 0));
    let len = text.len() as int;
    let right = if byte_end < len {
        (
            replaced_text(text, byte_end, len, Seq::empty()),
            replaced_annotations(text, anns, byte_end, len, Seq::empty()),
        )
    } else {
        (text, anns)
    };
    let left = if byte_start > 0 {
        (
            replaced_text(right.0, 0, byte_start, Seq::empty()),
            replaced_annotations(right.0, right.1, 0, byte_start, Seq::empty()),
        )
    } else {
        right
    };
    substituted(text, left, byte_start, byte_end, 0)
}

/// What is shown of cluster `k`: the character that stands in for it, or the
/// cluster itself.
pub open spec fn shown_cluster(text: Seq<u8>, k: int) -> Seq<u8> {
    match glyph_for(cluster_chars(text, k)) {
        Some(glyph) => encode_utf8(seq![glyph]),
        None => cluster_bytes(text, k),
    }
}

/// What is shown of the clusters from `from` up to, not including, `to`.
pub open spec fn shown_clusters(text: Seq<u8>, from: int, to: int) -> Seq<u8>
    decreases to - from,
{
    if from >= to {
        Seq::empty()
    } else {
        shown_cluster(text, from) + shown_clusters(text, from + 1, to)
    }
}

/// The first cluster past a column is a cluster at or behind the one from
/// which it is looked for, or the number of clusters, and it does not come
/// earlier for a column further to the right.
pub proof fn lemma_first_cluster_past(text: Seq<u8>, w1: int, w2: int, k: int)
    requires
        w1 <= w2,
        0 <= k <= cluster_count(text),
    ensures
        k <= first_cluster_past(text, w1, k) <= first_cluster_past(text, w2, k) <= cluster_count(text),
    decreases cluster_count(text) - k,
{
    if k < cluster_count(text) {
        lemma_first_cluster_past(text, w1, w2, k + 1);
    }
}

/// In valid UTF-8 the byte at a boundary inside the text does not continue a
/// character.
pub proof fn lemma_boundary_byte(text: Seq<u8>, i: int)
    requires
        valid_utf8(text),
        on_boundary(text, i),
        0 <= i < text.len(),
    ensures
        !is_continuation_byte(text[i]),
{
    if i == 0 {
        is_char_boundary_start_end_of_seq(text);
        is_char_boundary_iff_not_is_continuation_byte(text, 0);
    }
}

/// The encoding of a character is not empty and does not start with a byte
/// that continues a character.
pub proof fn lemma_encoded_char(c: char)
    ensures
        encode_utf8(seq![c]).len() > 0,
        !is_continuation_byte(encode_utf8(seq![c])[0]),
{
    let bytes = encode_utf8(seq![c]);
    reveal_with_fuel(encode_utf8, 2);
    assert(seq![c].drop_first() =~= Seq::<char>::empty());
    assert(seq![c][0] == c);
    assert(bytes =~= encode_scalar(c as u32));
    encode_utf8_valid_utf8(seq![c]);
    lemma_boundary_byte(bytes, 0);
}

/// What is shown of a cluster is not empty and does not start with a byte
/// that continues a character.
pub proof fn lemma_shown_cluster(text: Seq<u8>, k: int)
    requires
        valid_utf8(text),
        segmented(text),
        0 <= k < cluster_count(text),
    ensures
        shown_cluster(text, k).len() > 0,
        !is_continuation_byte(shown_cluster(text, k)[0]),
{
    lemma_cluster_bounds(text, k);
    lemma_cluster_bounds(text, k + 1);
    match glyph_for(cluster_chars(text, k)) {
        Some(glyph) => {
            lemma_encoded_char(glyph);
        },
        None => {
            lemma_boundary_byte(text, cluster_begin(text, k));
        },
    }
}

/// The text of a window once the clusters from the `k`-th on were looked at:
/// the bytes of the window before cluster `k`, and behind them what is shown
/// of the clusters of the window from `k` on.
proof fn lemma_substituted_text(
    text: Seq<u8>,
    anns: Seq<Annotation>,
    first: int,
    last: int,
    k: int,
)
    requires
        valid_utf8(text),
        segmented(text),
        0 <= first <= last <= cluster_count(text),
        0 <= k,
    ensures
        substituted(
            text,
            (text.subrange(cluster_begin(text, first), cluster_begin(text, last)), anns),
            cluster_begin(text, first),
            cluster_begin(text, last),
            k,
        ).0 == if k >= last {
            text.subrange(cluster_begin(text, first), cluster_begin(text, last))
        } else if k >= first {
            text.subrange(cluster_begin(text, first), cluster_begin(text, k)) + shown_clusters(text, k, last)
        } else {
            shown_clusters(text, first, last)
        },
    decreases cluster_count(text) - k,
{
    let byte_start = cluster_begin(text, first);
    let byte_end = cluster_begin(text, last);
    let cut = (text.subrange(byte_start, byte_end), anns);
    lemma_cluster_bounds(text, first);
    lemma_cluster_bounds(text, last);
    lemma_cluster_order(text, first, last);
    if k < cluster_count(text) {
        lemma_substituted_text(text, anns, first, last, k + 1);
        let after = substituted(text, cut, byte_start, byte_end, k + 1);
        let begin = cluster_begin(text, k);
        let end = cluster_begin(text, k + 1);
        lemma_cluster_bounds(text, k);
        lemma_cluster_bounds(text, k + 1);
        if k >= last {
            lemma_cluster_order(text, last, k);
        } else if k >= first {
            lemma_cluster_order(text, first, k);
            lemma_cluster_order(text, k + 1, last);
            let head = text.subrange(byte_start, begin);
            let tail = shown_clusters(text, k + 1, last);
            assert(after.0 =~= text.subrange(byte_start, end) + tail) by {
                if k + 1 >= last {
                    assert(tail =~= Seq::<u8>::empty());
                }
            }
            let s = begin - byte_start;
            let e = s + (end - begin);
            let glyph = glyph_for(cluster_chars(text, k));
            if glyph is Some {
                let with = encode_utf8(seq![glyph->0]);
                assert(on_boundary(after.0, s)) by {
                    lemma_boundary_byte(text, begin);
                }
                assert(on_boundary(after.0, e)) by {
                    if e < after.0.len() {
                        lemma_shown_cluster(text, k + 1);
                        assert(after.0[e] == tail[0]);
                        assert(tail[0] == shown_cluster(text, k + 1)[0]);
                    }
                }
                lemma_floor_boundary(after.0, s);
                lemma_floor_boundary(after.0, e);
                assert(replaced_text(after.0, s, e, with) =~= head + with + tail);
                assert(head + shown_clusters(text, k, last) =~= head + with + tail);
            } else {
                assert(head + shown_clusters(text, k, last) =~= text.subrange(byte_start, end) + tail);
            }
        } else {
            lemma_cluster_order(text, k + 1, first);
            if k + 1 == first {
                assert(text.subrange(byte_start, byte_start) + shown_clusters(text, first, last)
                    =~= shown_clusters(text, first, last));
            }
        }
    }
}

/// The text that a window shows is what is shown of its clusters, one after
/// the other: the clusters from the one that holds the first column of the
/// window up to the one that holds the column behind its last. Each is shown
/// whole, and as the character that stands in for it if it has one.
pub proof fn lemma_window_text(text: Seq<u8>, anns: Seq<Annotation>, from_col: int, to_col: int)
    requires
        valid_utf8(text),
        segmented(text),
        0 <= from_col <= to_col,
    ensures
        window(text, anns, from_col, to_col).0 == shown_clusters(
            text,
            first_cluster_past(text, from_col, 0),
            first_cluster_past(text, to_col, 0),
        ),
{
    let first = first_cluster_past(text, from_col, 0);
    let last = first_cluster_past(text, to_col, 0);
    lemma_first_cluster_past(text, from_col, to_col, 0);
    let byte_start = cluster_begin(text, first);
    let byte_end = cluster_begin(text, last);
    let len = text.len() as int;
    lemma_cluster_bounds(text, first);
    lemma_cluster_bounds(text, last);
    lemma_cluster_order(text, first, last);
    lemma_floor_boundary(text, byte_end);
    lemma_floor_boundary(text, len);
    let right_text = if byte_end < len {
        replaced_text(text, byte_end, len, Seq::empty())
    } else {
        text
    };
    assert(right_text =~= text.subrange(0, byte_end));
    assert(on_boundary(right_text, byte_start)) by {
        if byte_start < byte_end {
            lemma_boundary_byte(text, byte_start);
        }
    }
    lemma_floor_boundary(right_text, 0);
    lemma_floor_boundary(right_text, byte_start);
    let left_text = if byte_start > 0 {
        replaced_text(right_text, 0, byte_start, Seq::empty())
    } else {
        right_text
    };
    assert(left_text =~= text.subrange(byte_start, byte_end));
    let right_anns = if byte_end < len {
        replaced_annotations(text, anns, byte_end, len, Seq::empty())
    } else {
        anns
    };
    let left_anns = if byte_start > 0 {
        replaced_annotations(right_text, right_anns, 0, byte_start, Seq::empty())
    } else {
        right_anns
    };
    lemma_substituted_text(text, left_anns, first, last, 0);
    lemma_cluster_bounds(text, 0);
    if first == 0 && 0 < last {
        assert(text.subrange(byte_start, cluster_begin(text, 0)) + shown_clusters(text, 0, last)
            =~= shown_clusters(text, 0, last));
    }
}

/// What `f` must hold to be the record of cluster `i` of `text`.
pub open spec fn fragment_matches(text: Seq<u8>, i: int, f: TextFragment) -> bool {
    &&& f.start == cluster_begin(text, i)
    &&& f.grapheme@ == cluster_chars(text, i)
    &&& encode_utf8(f.grapheme@) == cluster_bytes(text, i)
    &&& f.rendered_width == width_for(f.grapheme@)
    &&& f.replacement == glyph_for(f.grapheme@)
}

/// `frags` holds the records of the clusters of `text`, in order.
pub open spec fn fragments_match(text: Seq<u8>, frags: Seq<TextFragment>) -> bool {
    &&& segmented(text)
    &&& frags.len() == cluster_count(text)
    &&& forall|i: int| 0 <= i < frags.len() ==> fragment_matches(text, i, #[trigger] frags[i])
}

/// Clusters lie inside the text, start between characters and are not empty.
pub proof fn lemma_cluster_bounds(text: Seq<u8>, i: int)
    requires
        segmented(text),
    ensures
        0 <= cluster_begin(text, i) <= text.len(),
        on_boundary(text, cluster_begin(text, i)),
        0 <= i < cluster_count(text) ==> cluster_begin(text, i) < cluster_begin(text, i + 1),
        i == 0 ==> cluster_begin(text, i) == 0,
{
    let starts = cluster_starts(text);
    if 0 <= i < starts.len() {
        assert(on_boundary(text, starts[i] as int));
        if i + 1 < starts.len() {
            assert(starts[i] < starts[i + 1]);
        }
    }
}

/// Later clusters start later.
pub proof fn lemma_cluster_order(text: Seq<u8>, i: int, j: int)
    requires
        segmented(text),
        0 <= i <= j,
    ensures
        cluster_begin(text, i) <= cluster_begin(text, j),
        i < j && i < cluster_count(text) ==> cluster_begin(text, i) < cluster_begin(text, j),
{
    lemma_cluster_bounds(text, i);
    lemma_cluster_bounds(text, j);
}

/// Byte `b` lies in cluster `i` exactly if the search from `k <= i` finds `i`.
pub proof fn lemma_cluster_at_from(text: Seq<u8>, b: int, k: int, i: int)
    requires
        segmented(text),
        0 <= k <= i < cluster_count(text),
        cluster_begin(text, i) <= b < cluster_begin(text, i + 1),
    ensures
        cluster_at_from(text, b, k) == Some(i),
    decreases i - k,
{
    if k < i {
        lemma_cluster_order(text, k + 1, i);
        lemma_cluster_at_from(text, b, k + 1, i);
    }
}

/// Going from a cluster to the byte at which it starts and back gives the
/// cluster again, and so does going from the index one past the last
/// cluster, which leads to the end of the line.
pub proof fn lemma_grapheme_byte_round_trip(text: Seq<u8>, i: int)
    requires
        segmented(text),
        0 <= i <= cluster_count(text),
    ensures
        cluster_at(text, cluster_begin(text, i)) == Some(i),
{
    lemma_cluster_bounds(text, i);
    if i < cluster_count(text) {
        lemma_cluster_bounds(text, i + 1);
        lemma_cluster_at_from(text, cluster_begin(text, i), 0, i);
    }
}

/// Inserting a character in front of a cluster and then deleting the cluster
/// at that index gives the text back, provided that the character, once
/// inserted, is a cluster of its own there.
pub proof fn lemma_insert_delete_round_trip(text: Seq<u8>, c: char, at: int)
    requires
        segmented(text),
        0 <= at,
        ({
            let after = inserted(text, c, at);
            &&& at < cluster_count(after)
            &&& cluster_begin(after, at) == cluster_begin(text, at)
            &&& cluster_begin(after, at + 1) == cluster_begin(text, at) + encode_utf8(seq![c]).len()
        }),
    ensures
        removed(inserted(text, c, at), at) == text,
{
    lemma_cluster_bounds(text, at);
    assert(removed(inserted(text, c, at), at) =~= text);
}

/// A line of text with the records of its grapheme clusters.
pub struct Line {
    fragments: Vec<TextFragment>,
    string: String,
}

impl View for Line {
    type V = Seq<u8>;

    /// The UTF-8 bytes of the line.
    closed spec fn view(&self) -> Seq<u8> {
        encode_utf8(self.string@)
    }
}

impl Line {
    /// The cluster records are those of the text.
    pub closed spec fn wf(&self) -> bool {
        fragments_match(self@, self.fragments@)
    }

    /// A well-formed line is valid UTF-8 cut into clusters.
    pub proof fn lemma_wf(&self)
        requires
            self.wf(),
        ensures
            segmented(self@),
            valid_utf8(self@),
    {
        broadcast use group_utf8_lib;

    }

    /// The line that holds `line_str`.
    pub fn from(line_str: &str) -> (r: Self)
        ensures
            r.wf(),
            r@ == line_str.spec_bytes(),
    {
        let fragments = Self::str_to_fragments(line_str);
        Self { fragments, string: line_str.to_owned() }
    }

    /// The empty line.
    pub fn new() -> (r: Self)
        ensures
            r.wf(),
            r@ == Seq::<u8>::empty(),
    {
        let r = Self::from("");
        proof {
            reveal_strlit("");
            assert(""@ =~= Seq::<char>::empty());
        }
        r
    }

    fn str_to_fragments(line_str: &str) -> (frags: Vec<TextFragment>)
        ensures
            fragments_match(line_str.spec_bytes(), frags@),
    {
        broadcast use group_utf8_lib;

        let ghost text = line_str.spec_bytes();
        let starts = grapheme_start_indices(line_str);
        let len = byte_len(line_str);
        let mut frags: Vec<TextFragment> = Vec::new();
        let mut i: usize = 0;
        while i < starts.len()
            invariant
                i <= starts.len(),
                text == line_str.spec_bytes(),
                valid_utf8(text),
                starts@ == cluster_starts(text),
                segmented(text),
                len == text.len(),
                frags.len() == i,
                forall|k: int| 0 <= k < i ==> fragment_matches(text, k, #[trigger] frags@[k]),
            decreases starts.len() - i,
        {
            let start = starts[i];
            let end = if i + 1 < starts.len() {
                starts[i + 1]
            } else {
                len
            };
            proof {
                lemma_cluster_bounds(text, i as int);
                lemma_cluster_bounds(text, i + 1);
            }
            let grapheme = substr(line_str, start, end);
            proof {
                lemma_boundary(text, end as int);
                valid_utf8_split(text, end as int);
                lemma_boundary(text.subrange(0, end as int), start as int);
                valid_utf8_split(text.subrange(0, end as int), start as int);
                assert(text.subrange(0, end as int).subrange(start as int, end as int) =~= text.subrange(
                    start as int,
                    end as int,
                ));
            }
            proof {
                assert(grapheme.spec_bytes() == cluster_bytes(text, i as int));
                encode_utf8_decode_utf8(grapheme@);
                assert(grapheme@ == cluster_chars(text, i as int));
            }
            let replacement = Self::get_replacement_character(grapheme);
            let rendered_width = if str_width_cjk(grapheme) > 1 {
                GraphemeWidth::Full
            } else {
                GraphemeWidth::Half
            };
            frags.push(TextFragment { grapheme: grapheme.to_owned(), rendered_width, replacement, start });
            i += 1;
        }
        frags
    }

    fn rebuild_fragments(&mut self)
        ensures
            final(self).wf(),
            final(self)@ == old(self)@,
    {
        self.fragments = Self::str_to_fragments(self.string.as_str());
    }

    fn get_replacement_character(for_str: &str) -> (r: Option<char>)
        ensures
            r == glyph_for(for_str@),
    {
        let width = str_width_cjk(for_str);
        let chars = chars_vec(for_str);
        if chars.len() == 1 && chars[0] == ' ' {
            assert(for_str@ =~= seq![' ']);
            return None;
        }
        if chars.len() == 1 && chars[0] == '\t' {
            assert(for_str@ =~= seq!['\t']);
            return Some(' ');
        }
        if width > 0 {
            let mut blank = true;
            let mut i: usize = 0;
            while i < chars.len()
                invariant
                    i <= chars.len(),
                    blank <==> forall|k: int| 0 <= k < i ==> whitespace_char(#[trigger] chars@[k]),
                decreases chars.len() - i,
            {
                if !chars[i].is_whitespace() {
                    blank = false;
                }
                i += 1;
            }
            if blank {
                Some('\u{2423}')
            } else {
                None
            }
        } else if chars.len() == 1 && chars[0].is_control() {
            Some('\u{25af}')
        } else {
            Some('\u{b7}')
        }
    }

    /// The number of grapheme clusters.
    pub fn grapheme_count(&self) -> (n: usize)
        requires
            self.wf(),
        ensures
            n == cluster_count(self@),
    {
        self.fragments.len()
    }

    /// The length of the line in bytes.
    pub fn line_length(&self) -> (n: usize)
        ensures
            n == self@.len(),
    {
        byte_len(self.string.as_str())
    }

    /// The text of the line.
    pub fn as_str(&self) -> (s: &str)
        ensures
            s.spec_bytes() == self@,
    {
        self.string.as_str()
    }

    /// A copy of the text of the line.
    pub fn to_string(&self) -> (s: String)
        ensures
            encode_utf8(s@) == self@,
    {
        self.string.clone()
    }

    /// The text of cluster `grapheme_idx`, if there is such a cluster.
    pub fn grapheme_at(&self, grapheme_idx: usize) -> (r: Option<String>)
        requires
            self.wf(),
        ensures
            grapheme_idx >= cluster_count(self@) ==> r is None,
            grapheme_idx < cluster_count(self@) ==> r is Some && encode_utf8(r->0@) == cluster_bytes(
                self@,
                grapheme_idx as int,
            ),
    {
        if grapheme_idx < self.fragments.len() {
            Some(self.fragments[grapheme_idx].grapheme.clone())
        } else {
            None
        }
    }

    /// The columns that the clusters before `grapheme_idx` take, which is the
    /// column of a caret in front of that cluster.
    pub fn width_until(&self, grapheme_idx: usize) -> (w: usize)
        requires
            self.wf(),
        ensures
            w == capped(width_upto(self@, grapheme_idx as int) as int),
    {
        let mut w: usize = 0;
        let mut i: usize = 0;
        while i < grapheme_idx && i < self.fragments.len()
            invariant
                self.wf(),
                i <= grapheme_idx,
                i <= self.fragments.len(),
                w == capped(width_upto(self@, i as int) as int),
            decreases self.fragments.len() - i,
        {
            w = self.fragments[i].rendered_width.saturating_add(w);
            i += 1;
        }
        proof {
            lemma_width_past_end(self@, i as int, grapheme_idx as int);
        }
        w
    }

    /// The columns that the line takes.
    pub fn width(&self) -> (w: usize)
        requires
            self.wf(),
        ensures
            w == capped(width_upto(self@, cluster_count(self@) as int) as int),
    {
        self.width_until(self.grapheme_count())
    }

    /// The byte offset of the cluster that holds column `display_width`: the
    /// start of the first cluster that ends beyond that column, or the length
    /// of the line. Never an offset inside a cluster.
    pub fn display_width_to_byte_pos(&self, display_width: usize) -> (b: usize)
        requires
            self.wf(),
        ensures
            b == cluster_begin(self@, first_cluster_past(self@, display_width as int, 0)),
            b <= self@.len(),
    {
        let mut current_width: usize = 0;
        let mut i: usize = 0;
        proof {
            self.lemma_wf();
        }
        while i < self.fragments.len()
            invariant
                self.wf(),
                i <= self.fragments.len(),
                current_width == width_upto(self@, i as int),
                current_width <= display_width,
                first_cluster_past(self@, display_width as int, 0) == first_cluster_past(
                    self@,
                    display_width as int,
                    i as int,
                ),
            decreases self.fragments.len() - i,
        {
            let fragment_width = self.fragments[i].rendered_width.columns();
            if fragment_width > display_width - current_width {
                proof {
                    lemma_cluster_bounds(self@, i as int);
                }
                return self.fragments[i].start;
            }
            current_width = current_width + fragment_width;
            i += 1;
        }
        self.line_length()
    }

    /// The byte offset at which cluster `grapheme_idx` starts; the length of
    /// the line for an index past the last cluster.
    pub fn grapheme_to_byte_idx(&self, grapheme_idx: usize) -> (b: usize)
        requires
            self.wf(),
        ensures
            b == cluster_begin(self@, grapheme_idx as int),
            b <= self@.len(),
            on_boundary(self@, b as int),
    {
        proof {
            self.lemma_wf();
            lemma_cluster_bounds(self@, grapheme_idx as int);
        }
        if grapheme_idx >= self.grapheme_count() {
            self.line_length()
        } else {
            self.grapheme_idx_to_byte_idx(grapheme_idx)
        }
    }

    fn grapheme_idx_to_byte_idx(&self, grapheme_idx: usize) -> (b: usize)
        requires
            self.wf(),
        ensures
            b == if grapheme_idx < cluster_count(self@) {
                cluster_begin(self@, grapheme_idx as int)
            } else {
                0
            },
    {
        if grapheme_idx < self.fragments.len() {
            self.fragments[grapheme_idx].start
        } else {
            0
        }
    }

    /// The cluster that holds byte `byte_idx`. The offset at which the line
    /// ends is the place behind the last cluster and gives the number of
    /// clusters; there is nothing beyond it.
    pub fn byte_idx_to_grapheme_idx(&self, byte_idx: usize) -> (r: Option<usize>)
        requires
            self.wf(),
        ensures
            r is Some <==> cluster_at(self@, byte_idx as int) is Some,
            r is Some ==> r->0 == cluster_at(self@, byte_idx as int)->0,
            r is Some <==> byte_idx <= self@.len(),
            byte_idx == self@.len() ==> r == Some(cluster_count(self@) as usize),
            byte_idx < self@.len() ==> r->0 < cluster_count(self@) && cluster_begin(self@, r->0 as int)
                <= byte_idx < cluster_begin(self@, r->0 + 1),
    {
        proof {
            self.lemma_wf();
        }
        let len = self.line_length();
        if byte_idx > len {
            return None;
        }
        if byte_idx == len {
            return Some(self.fragments.len());
        }
        proof {
            lemma_cluster_bounds(self@, 0);
        }
        let mut i: usize = 0;
        while i < self.fragments.len()
            invariant
                self.wf(),
                segmented(self@),
                byte_idx < self@.len(),
                i <= self.fragments.len(),
                cluster_at_from(self@, byte_idx as int, 0) == cluster_at_from(
                    self@,
                    byte_idx as int,
                    i as int,
                ),
                cluster_begin(self@, i as int) <= byte_idx,
            decreases self.fragments.len() - i,
        {
            let f = &self.fragments[i];
            proof {
                lemma_cluster_bounds(self@, i as int);
                lemma_cluster_bounds(self@, i + 1);
            }
            if byte_idx >= f.start && byte_idx - f.start < byte_len(f.grapheme.as_str()) {
                return Some(i);
            }
            i += 1;
        }
        None
    }

    fn cluster_chars_vec(&self, grapheme_idx: usize) -> (chars: Vec<char>)
        requires
            self.wf(),
            grapheme_idx < cluster_count(self@),
        ensures
            chars@ == cluster_chars(self@, grapheme_idx as int),
    {
        chars_vec(self.fragments[grapheme_idx].grapheme.as_str())
    }

    /// Whether cluster `grapheme_idx` exists and is white space.
    pub fn is_whitespace_at(&self, grapheme_idx: usize) -> (r: bool)
        requires
            self.wf(),
        ensures
            r == whitespace_at(self@, grapheme_idx as int),
    {
        if grapheme_idx >= self.fragments.len() {
            return false;
        }
        let chars = self.cluster_chars_vec(grapheme_idx);
        let mut i: usize = 0;
        while i < chars.len()
            invariant
                i <= chars.len(),
                grapheme_idx < cluster_count(self@),
                chars@ == cluster_chars(self@, grapheme_idx as int),
                forall|k: int| 0 <= k < i ==> whitespace_char(#[trigger] chars@[k]),
            decreases chars.len() - i,
        {
            if !chars[i].is_whitespace() {
                return false;
            }
            i += 1;
        }
        true
    }

    /// Whether cluster `grapheme_idx` exists and separates words: white
    /// space, a comma or a semicolon.
    pub fn is_word_delimiter_at(&self, grapheme_idx: usize) -> (r: bool)
        requires
            self.wf(),
        ensures
            r == delimiter_at(self@, grapheme_idx as int),
    {
        if grapheme_idx >= self.fragments.len() {
            return false;
        }
        let chars = self.cluster_chars_vec(grapheme_idx);
        let mut i: usize = 0;
        while i < chars.len()
            invariant
                i <= chars.len(),
                grapheme_idx < cluster_count(self@),
                chars@ == cluster_chars(self@, grapheme_idx as int),
                forall|k: int| 0 <= k < i ==> delimiter_char(#[trigger] chars@[k]),
            decreases chars.len() - i,
        {
            let c = chars[i];
            if !(c.is_whitespace() || c == ',' || c == ';' || c == '\n' || c == '\r') {
                return false;
            }
            i += 1;
        }
        true
    }

    fn is_identifier_at(&self, grapheme_idx: usize) -> (r: bool)
        requires
            self.wf(),
        ensures
            r == identifier_at(self@, grapheme_idx as int),
    {
        if grapheme_idx >= self.fragments.len() {
            return false;
        }
        let chars = self.cluster_chars_vec(grapheme_idx);
        let mut i: usize = 0;
        while i < chars.len()
            invariant
                i <= chars.len(),
                grapheme_idx < cluster_count(self@),
                chars@ == cluster_chars(self@, grapheme_idx as int),
                forall|k: int| 0 <= k < i ==> identifier_char(#[trigger] chars@[k]),
            decreases chars.len() - i,
        {
            let c = chars[i];
            if !(c.is_alphanumeric() || c == '_') {
                return false;
            }
            i += 1;
        }
        true
    }

    fn is_char_at(&self, grapheme_idx: usize, c: char) -> (r: bool)
        requires
            self.wf(),
        ensures
            r == cluster_is(self@, grapheme_idx as int, c),
    {
        if grapheme_idx >= self.fragments.len() {
            return false;
        }
        let chars = self.cluster_chars_vec(grapheme_idx);
        if chars.len() == 1 && chars[0] == c {
            assert(chars@ =~= seq![c]);
            true
        } else {
            false
        }
    }

    fn is_angle_open_at(&self, grapheme_idx: usize) -> (r: bool)
        requires
            self.wf(),
        ensures
            r == stops_at(self@, Stop::AngleOpen, grapheme_idx as int),
    {
        self.is_char_at(grapheme_idx, '<')
    }

    fn is_angle_close_at(&self, grapheme_idx: usize) -> (r: bool)
        requires
            self.wf(),
        ensures
            r == stops_at(self@, Stop::AngleClose, grapheme_idx as int),
    {
        self.is_char_at(grapheme_idx, '>')
    }

    fn is_skip_at(&self, grapheme_idx: usize) -> (r: bool)
        requires
            self.wf(),
        ensures
            r == !stops_at(self@, Stop::WordStart, grapheme_idx as int),
    {
        !self.is_identifier_at(grapheme_idx) && !self.is_angle_open_at(grapheme_idx)
    }

    /// Where the word before cluster `grapheme_idx` starts: the first
    /// cluster of a run of identifier clusters, or the `<` of a span that
    /// ends in `>`. `None` at the start of the line and where only separators
    /// stand before the index.
    pub fn prev_word_start(&self, grapheme_idx: usize) -> (r: Option<usize>)
        requires
            self.wf(),
        ensures
            same_index(r, word_start_before(self@, grapheme_idx as int)),
    {
        if grapheme_idx == 0 {
            return None;
        }
        let mut idx = grapheme_idx;
        while idx > 0 && !self.is_identifier_at(idx - 1) && !self.is_angle_close_at(idx - 1)
            invariant
                self.wf(),
                idx <= grapheme_idx,
                prev_stop_before(self@, Stop::WordEnd, idx as int) == prev_stop_before(
                    self@,
                    Stop::WordEnd,
                    grapheme_idx as int,
                ),
            decreases idx,
        {
            idx -= 1;
        }
        if idx == 0 {
            return None;
        }
        idx -= 1;
        let ghost last = idx;
        if self.is_angle_close_at(idx) {
            while idx > 0 && !self.is_angle_open_at(idx)
                invariant
                    self.wf(),
                    idx <= last,
                    prev_stop_at(self@, Stop::AngleOpen, idx as int) == prev_stop_at(
                        self@,
                        Stop::AngleOpen,
                        last as int,
                    ),
                decreases idx,
            {
                idx -= 1;
            }
            Some(idx)
        } else {
            while idx > 0 && self.is_identifier_at(idx - 1)
                invariant
                    self.wf(),
                    idx <= last,
                    prev_stop_before(self@, Stop::NotIdentifier, idx as int) == prev_stop_before(
                        self@,
                        Stop::NotIdentifier,
                        last as int,
                    ),
                decreases idx,
            {
                idx -= 1;
            }
            Some(idx)
        }
    }

    /// Where the caret goes to stand behind the next word at or after cluster
    /// `grapheme_idx`: the index behind the last identifier cluster of the
    /// run, or behind the `>` that closes a `<`. `None` if no word follows.
    pub fn next_word_end(&self, grapheme_idx: usize) -> (r: Option<usize>)
        requires
            self.wf(),
        ensures
            same_index(r, word_end_from(self@, grapheme_idx as int)),
    {
        let len = self.grapheme_count();
        let mut idx = grapheme_idx;
        while idx < len && self.is_skip_at(idx)
            invariant
                self.wf(),
                len == cluster_count(self@),
                grapheme_idx <= idx,
                next_stop(self@, Stop::WordStart, idx as int) == next_stop(
                    self@,
                    Stop::WordStart,
                    grapheme_idx as int,
                ),
            decreases len - idx,
        {
            idx += 1;
        }
        if idx >= len {
            return None;
        }
        let ghost start = idx;
        if self.is_angle_open_at(idx) {
            idx += 1;
            while idx < len && !self.is_angle_close_at(idx)
                invariant
                    self.wf(),
                    len == cluster_count(self@),
                    start < idx <= len,
                    next_stop(self@, Stop::AngleClose, idx as int) == next_stop(
                        self@,
                        Stop::AngleClose,
                        start + 1,
                    ),
                decreases len - idx,
            {
                idx += 1;
            }
            if idx < len {
                Some(idx + 1)
            } else {
                None
            }
        } else {
            while idx < len && self.is_identifier_at(idx)
                invariant
                    self.wf(),
                    len == cluster_count(self@),
                    start <= idx <= len,
                    next_stop(self@, Stop::NotIdentifier, idx as int) == next_stop(
                        self@,
                        Stop::NotIdentifier,
                        start as int,
                    ),
                decreases len - idx,
            {
                idx += 1;
            }
            Some(idx)
        }
    }

    /// Where the next word at or after cluster `grapheme_idx` starts. `None`
    /// if no word follows.
    pub fn next_word_start(&self, grapheme_idx: usize) -> (r: Option<usize>)
        requires
            self.wf(),
        ensures
            same_index(r, word_start_from(self@, grapheme_idx as int)),
    {
        let len = self.grapheme_count();
        let mut idx = grapheme_idx;
        while idx < len && self.is_skip_at(idx)
            invariant
                self.wf(),
                len == cluster_count(self@),
                grapheme_idx <= idx,
                next_stop(self@, Stop::WordStart, idx as int) == next_stop(
                    self@,
                    Stop::WordStart,
                    grapheme_idx as int,
                ),
            decreases len - idx,
        {
            idx += 1;
        }
        if idx < len {
            Some(idx)
        } else {
            None
        }
    }

    /// The cluster at which the first hit of `query` at or after cluster
    /// `from_grapheme_idx` starts. A hit counts only if it starts and ends
    /// between clusters. Nothing is found from the end of the line on.
    pub fn search_forward(&self, query: &str, from_grapheme_idx: usize) -> (r: Option<usize>)
        requires
            self.wf(),
        ensures
            same_index(r, first_match_from(self@, query.spec_bytes(), from_grapheme_idx as int)),
    {
        if from_grapheme_idx >= self.grapheme_count() {
            return None;
        }
        let start = self.grapheme_idx_to_byte_idx(from_grapheme_idx);
        let hits = self.find_all(query, start, self.line_length());
        if hits.len() == 0 {
            None
        } else {
            Some(hits[0].1)
        }
    }

    /// The cluster at which the last hit of `query` that ends at or before
    /// cluster `from_grapheme_idx` starts. A hit counts only if it starts and
    /// ends between clusters. Nothing is found before the start of the line.
    pub fn search_backward(&self, query: &str, from_grapheme_idx: usize) -> (r: Option<usize>)
        requires
            self.wf(),
        ensures
            same_index(r, last_match_before(self@, query.spec_bytes(), from_grapheme_idx as int)),
    {
        if from_grapheme_idx == 0 || from_grapheme_idx > self.grapheme_count() {
            return None;
        }
        let end_byte_index = self.grapheme_to_byte_idx(from_grapheme_idx);
        let hits = self.find_all(query, 0, end_byte_index);
        if hits.len() == 0 {
            None
        } else {
            Some(hits[hits.len() - 1].1)
        }
    }

    fn is_cluster_edge(&self, p: usize) -> (r: bool)
        requires
            self.wf(),
        ensures
            r == cluster_edge(self@, p as int),
    {
        if p == self.line_length() {
            return true;
        }
        match self.byte_idx_to_grapheme_idx(p) {
            Some(g) => self.fragments[g].start == p,
            None => false,
        }
    }

    pub(crate) fn find_all(&self, query: &str, start: usize, end: usize) -> (hits: Vec<(usize, usize)>)
        requires
            self.wf(),
        ensures
            hits_view(hits@) == line_matches(self@, query.spec_bytes(), start as int, end as int),
            forall|k: int|
                0 <= k < hits.len() ==> (#[trigger] hits[k]).0 + query.spec_bytes().len() <= self@.len(),
    {
        let len = self.line_length();
        let end = if end > len { len } else { end };
        if start > end {
            assert(hits_view(Seq::<(usize, usize)>::empty()) =~= Seq::<(int, int)>::empty());
            return Vec::new();
        }
        let potential_matches = find_matches(self.string.as_str().as_bytes(), query.as_bytes(), start, end);
        self.match_graphme_clusters(&potential_matches, query)
    }

    fn match_graphme_clusters(&self, matches: &Vec<usize>, query: &str) -> (hits: Vec<(usize, usize)>)
        requires
            self.wf(),
            forall|k: int| 0 <= k < matches.len() ==> #[trigger] matches[k] + query.spec_bytes().len() <= self@.len(),
        ensures
            hits_view(hits@) == aligned_matches(
                self@,
                query.spec_bytes().len() as int,
                matches@.map_values(|p: usize| p as int),
            ),
            forall|k: int|
                0 <= k < hits.len() ==> (#[trigger] hits[k]).0 + query.spec_bytes().len() <= self@.len(),
    {
        let query_len = byte_len(query);
        let len = self.line_length();
        let mut hits: Vec<(usize, usize)> = Vec::new();
        let ghost positions = matches@.map_values(|p: usize| p as int);
        let mut i: usize = 0;
        assert(positions.take(0) =~= Seq::<int>::empty());
        assert(hits_view(hits@) =~= Seq::<(int, int)>::empty());
        while i < matches.len()
            invariant
                self.wf(),
                i <= matches.len(),
                query_len == query.spec_bytes().len(),
                len == self@.len(),
                positions == matches@.map_values(|p: usize| p as int),
                forall|k: int| 0 <= k < matches.len() ==> #[trigger] matches[k] + query_len <= len,
                hits_view(hits@) == aligned_matches(self@, query_len as int, positions.take(i as int)),
                forall|k: int| 0 <= k < hits.len() ==> (#[trigger] hits[k]).0 + query_len <= len,
            decreases matches.len() - i,
        {
            let start = matches[i];
            let ghost before = hits_view(hits@);
            proof {
                assert(positions.take(i + 1).drop_last() =~= positions.take(i as int));
                assert(positions.take(i + 1).last() == start);
            }
            if start < len && self.is_cluster_edge(start) && self.is_cluster_edge(start + query_len) {
                match self.byte_idx_to_grapheme_idx(start) {
                    Some(grapheme_idx) => {
                        hits.push((start, grapheme_idx));
                        assert(hits_view(hits@) =~= before.push((start as int, grapheme_idx as int)));
                    },
                    None => {},
                }
            }
            i += 1;
        }
        assert(positions.take(matches.len() as int) =~= positions);
        hits
    }

    /// The text that is shown in the columns of `range`: what is shown of the
    /// clusters from the one that holds the first column up to the one that
    /// holds the column behind the last. Nothing for an empty range.
    pub fn get_visible_graphemes(&self, range: Range<usize>) -> (r: String)
        requires
            self.wf(),
        ensures
            range.start >= range.end ==> encode_utf8(r@) == Seq::<u8>::empty(),
            range.start < range.end ==> encode_utf8(r@) == shown_clusters(
                self@,
                first_cluster_past(self@, range.start as int, 0),
                first_cluster_past(self@, range.end as int, 0),
            ),
    {
        let ghost from_col = range.start as int;
        let ghost to_col = range.end as int;
        let (shown, _) = self.get_annotated_visible_substr(
            range,
            None,
            None,
            Option::<&LanguageHighlighter>::None,
            HighlightState::default(),
            None,
            None,
        );
        proof {
            assert(from_highlights(Seq::<HighlightAnnotation>::empty(), 0) + Seq::<Annotation>::empty()
                + from_selection(None, self@.len() as int) =~= Seq::<Annotation>::empty());
            if from_col < to_col {
                self.lemma_wf();
                lemma_window_text(self@, Seq::empty(), from_col, to_col);
            }
        }
        shown.to_string()
    }

    /// What is shown of the line in the columns of `range`, and the state of
    /// the highlighter behind the line.
    ///
    /// The annotations are laid on in this order: those of the highlighter,
    /// taken from `cached_annotations` if given, else computed by
    /// `highlighter` from `state`; a match for every hit of `query`, a
    /// selected match for the one at cluster `selected_match`; the selection
    /// over the bytes of `selection_range`. Then the text is cut to the
    /// window and each cluster that is shown as another character gives way
    /// to it. An empty range of columns shows nothing.
    pub fn get_annotated_visible_substr<H: Highlighter>(
        &self,
        range: Range<usize>,
        query: Option<&str>,
        selected_match: Option<usize>,
        highlighter: Option<&H>,
        state: HighlightState,
        cached_annotations: Option<&[HighlightAnnotation]>,
        selection_range: Option<Range<usize>>,
    ) -> (r: (AnnotatedString, HighlightState))
        requires
            self.wf(),
        ensures
            r.1 == if range.start < range.end && cached_annotations is None && highlighter is Some {
                highlighter->0.highlighted(decode_utf8(self@), state).1
            } else {
                state
            },
            range.start >= range.end ==> r.0.text() == Seq::<u8>::empty() && r.0.annotations()
                == Seq::<Annotation>::empty(),
            range.start < range.end ==> (r.0.text(), r.0.annotations()) == window(
                self@,
                line_annotations_of(
                    self@,
                    match cached_annotations {
                        Some(cached) => cached@,
                        None => match highlighter {
                            Some(h) => h.highlighted(decode_utf8(self@), state).0,
                            None => Seq::empty(),
                        },
                    },
                    match query {
                        Some(q) => Some(q.spec_bytes()),
                        None => None,
                    },
                    selected_match,
                    selection_range,
                ),
                range.start as int,
                range.end as int,
            ),
    {
        broadcast use group_utf8_lib;

        if range.start >= range.end {
            return (AnnotatedString::new(), state);
        }
        let mut result = AnnotatedString::from(self.string.as_str());
        let mut new_state = state;
        let len = self.line_length();
        match cached_annotations {
            Some(cached) => {
                Self::add_highlights(&mut result, cached);
            },
            None => {
                match highlighter {
                    Some(hl) => {
                        let (highlights, updated_state) = hl.highlight_line(self.string.as_str(), 0, state);
                        new_state = updated_state;
                        Self::add_highlights(&mut result, highlights.as_slice());
                    },
                    None => {
                        assert(from_highlights(Seq::<HighlightAnnotation>::empty(), 0) =~= Seq::<
                            Annotation,
                        >::empty());
                    },
                }
            },
        }
        let ghost highlighted = result.annotations();
        match query {
            Some(query) => {
                if byte_len(query) > 0 {
                    let hits = self.find_all(query, 0, len);
                    Self::add_matches(&mut result, &hits, byte_len(query), selected_match);
                }
            },
            None => {},
        }
        let ghost matched = result.annotations();
        match selection_range {
            Some(sel_range) => {
                let end = if sel_range.end > len {
                    len
                } else {
                    sel_range.end
                };
                if sel_range.start < end {
                    result.add_annotation(AnnotationType::Selection, sel_range.start, end);
                }
            },
            None => {},
        }
        proof {
            assert(result.annotations() =~= matched + from_selection(selection_range, len as int));
        }
        let byte_start = self.display_width_to_byte_pos(range.start);
        let byte_end = self.display_width_to_byte_pos(range.end);
        if byte_end < len {
            result.truncate_right_from(byte_end);
        }
        if byte_start > 0 {
            result.truncate_left_until(byte_start);
        }
        let ghost cut = (result.text(), result.annotations());
        let mut k = self.fragments.len();
        while k > 0
            invariant
                self.wf(),
                len == self@.len(),
                k <= self.fragments.len(),
                (result.text(), result.annotations()) == substituted(
                    self@,
                    cut,
                    byte_start as int,
                    byte_end as int,
                    k as int,
                ),
            decreases k,
        {
            k -= 1;
            proof {
                self.lemma_wf();
                lemma_cluster_bounds(self@, k as int);
                lemma_cluster_bounds(self@, k + 1);
            }
            let fragment = &self.fragments[k];
            let fragment_len = byte_len(fragment.grapheme.as_str());
            assert(fragment.start + fragment_len == cluster_begin(self@, k + 1));
            if fragment.start < byte_end && fragment.start + fragment_len > byte_start {
                match fragment.replacement {
                    Some(replacement) => {
                        let start = fragment.start.saturating_sub(byte_start);
                        let end = start + fragment_len;
                        let result_len = result.len();
                        if start < result_len && end <= result_len {
                            let mut glyph = String::new();
                            push_char(&mut glyph, replacement);
                            assert(glyph@ =~= seq![replacement]);
                            result.replace(start, end, glyph.as_str());
                        }
                    },
                    None => {},
                }
            }
        }
        (result, new_state)
    }

    fn add_highlights(result: &mut AnnotatedString, highlights: &[HighlightAnnotation])
        ensures
            final(result).text() == old(result).text(),
            final(result).annotations() == old(result).annotations() + from_highlights(
                highlights@,
                highlights@.len() as int,
            ),
    {
        let mut i: usize = 0;
        assert(old(result).annotations() + from_highlights(highlights@, 0) =~= old(result).annotations());
        while i < highlights.len()
            invariant
                i <= highlights.len(),
                result.text() == old(result).text(),
                result.annotations() == old(result).annotations() + from_highlights(highlights@, i as int),
            decreases highlights.len() - i,
        {
            let highlight = highlights[i];
            if highlight.start <= highlight.end {
                result.add_annotation(highlight.annotation_type, highlight.start, highlight.end);
            }
            i += 1;
            assert(result.annotations() =~= old(result).annotations() + from_highlights(
                highlights@,
                i as int,
            ));
        }
    }

    fn add_matches(
        result: &mut AnnotatedString,
        hits: &Vec<(usize, usize)>,
        query_len: usize,
        selected_match: Option<usize>,
    )
        requires
            forall|k: int| 0 <= k < hits.len() ==> (#[trigger] hits[k]).0 + query_len <= usize::MAX,
        ensures
            final(result).text() == old(result).text(),
            final(result).annotations() == old(result).annotations() + from_matches(
                hits_view(hits@),
                query_len as int,
                selected_match,
                hits@.len() as int,
            ),
    {
        let mut i: usize = 0;
        assert(old(result).annotations() + from_matches(
            hits_view(hits@),
            query_len as int,
            selected_match,
            0,
        ) =~= old(result).annotations());
        while i < hits.len()
            invariant
                i <= hits.len(),
                forall|k: int| 0 <= k < hits.len() ==> (#[trigger] hits[k]).0 + query_len <= usize::MAX,
                result.text() == old(result).text(),
                result.annotations() == old(result).annotations() + from_matches(
                    hits_view(hits@),
                    query_len as int,
                    selected_match,
                    i as int,
                ),
            decreases hits.len() - i,
        {
            let (start, grapheme_idx) = hits[i];
            let kind = match selected_match {
                Some(selected) => if selected == grapheme_idx {
                    AnnotationType::SelectedMatch
                } else {
                    AnnotationType::Match
                },
                None => AnnotationType::Match,
            };
            result.add_annotation(kind, start, start + query_len);
            i += 1;
            assert(result.annotations() =~= old(result).annotations() + from_matches(
                hits_view(hits@),
                query_len as int,
                selected_match,
                i as int,
            ));
        }
    }

    /// Puts `character` in front of cluster `at`, or at the end of the line if
    /// there is no such cluster.
    pub fn insert_char(&mut self, character: char, at: usize)
        requires
            old(self).wf(),
        ensures
            final(self).wf(),
            final(self)@ == inserted(old(self)@, character, at as int),
    {
        let b = self.grapheme_to_byte_idx(at);
        let string = insert_at(self.string.as_str(), b, character);
        self.string = string;
        self.rebuild_fragments();
    }

    /// Puts `character` at the end of the line.
    pub fn append_char(&mut self, character: char)
        requires
            old(self).wf(),
        ensures
            final(self).wf(),
            final(self)@ == old(self)@ + encode_utf8(seq![character]),
    {
        let n = self.grapheme_count();
        self.insert_char(character, n);
        assert(final(self)@ =~= old(self)@ + encode_utf8(seq![character]));
    }

    /// Removes cluster `at`; does nothing if there is no such cluster.
    pub fn delete(&mut self, at: usize)
        requires
            old(self).wf(),
        ensures
            final(self).wf(),
            final(self)@ == removed(old(self)@, at as int),
    {
        if at < self.fragments.len() {
            let start = self.grapheme_to_byte_idx(at);
            let end = self.grapheme_to_byte_idx(at + 1);
            proof {
                self.lemma_wf();
                lemma_cluster_bounds(self@, at as int);
            }
            self.remove_bytes(start, end);
        }
    }

    /// Removes the last cluster; does nothing on an empty line.
    pub fn delete_last(&mut self)
        requires
            old(self).wf(),
        ensures
            final(self).wf(),
            final(self)@ == removed(old(self)@, cluster_count(old(self)@) - 1),
    {
        let n = self.grapheme_count();
        if n > 0 {
            self.delete(n - 1);
        }
    }

    fn remove_bytes(&mut self, start: usize, end: usize)
        requires
            old(self).wf(),
            start <= end,
            on_boundary(old(self)@, start as int),
            on_boundary(old(self)@, end as int),
        ensures
            final(self).wf(),
            final(self)@ == spliced(old(self)@, start as int, end as int, Seq::empty()),
    {
        let string = splice(self.string.as_str(), start, end, "");
        proof {
            reveal_strlit("");
            assert(""@ =~= Seq::<char>::empty());
        }
        self.string = string;
        self.rebuild_fragments();
    }

    /// Removes the bytes of `range`. The range is clamped to the line and its
    /// ends are moved down to character boundaries; nothing happens if
    /// nothing is left of it.
    pub fn delete_byte_range(&mut self, range: Range<usize>)
        requires
            old(self).wf(),
        ensures
            final(self).wf(),
            final(self)@ == range_removed(old(self)@, range.start as int, range.end as int),
    {
        if range.start >= range.end {
            return;
        }
        let len = self.line_length();
        let s = floor_char_boundary(
            self.string.as_str(),
            if range.start > len {
                len
            } else {
                range.start
            },
        );
        let e = floor_char_boundary(
            self.string.as_str(),
            if range.end > len {
                len
            } else {
                range.end
            },
        );
        if s >= e {
            return;
        }
        self.remove_bytes(s, e);
    }

    /// Puts the text of `other` at the end of the line.
    pub fn append(&mut self, other: &Self)
        requires
            old(self).wf(),
        ensures
            final(self).wf(),
            final(self)@ == old(self)@ + other@,
    {
        let mut string = self.string.clone();
        string.append(other.string.as_str());
        proof {
            lemma_encode_concat(self.string@, other.string@);
        }
        self.string = string;
        self.rebuild_fragments();
    }

    /// Cuts the line in front of cluster `at` and returns what was cut off.
    /// If there is no such cluster the line stays whole and the result is
    /// empty.
    pub fn split(&mut self, at: usize) -> (rest: Self)
        requires
            old(self).wf(),
        ensures
            final(self).wf(),
            rest.wf(),
            final(self)@ == old(self)@.subrange(0, cluster_begin(old(self)@, at as int)),
            rest@ == old(self)@.subrange(
                cluster_begin(old(self)@, at as int),
                old(self)@.len() as int,
            ),
    {
        let b = self.grapheme_to_byte_idx(at);
        let len = self.line_length();
        let rest = Self::from(substr(self.string.as_str(), b, len));
        if at < self.fragments.len() {
            let head = Self::from(substr(self.string.as_str(), 0, b));
            *self = head;
        } else {
            assert(self@.subrange(0, self@.len() as int) =~= self@);
        }
        rest
    }
}

impl Default for Line {
    fn default() -> (r: Self)
        ensures
            r.wf(),
            r@ == Seq::<u8>::empty(),
    {
        Self::new()
    }
}

/// Indices past the last cluster add no width.
pub proof fn lemma_width_past_end(text: Seq<u8>, n: int, g: int)
    requires
        n <= g,
        n >= cluster_count(text) || n == g,
    ensures
        width_upto(text, g) == width_upto(text, n),
    decreases g - n,
{
    if n < g {
        lemma_width_past_end(text, n, g - 1);
    }
}

} // verus!
