//! The document: a sequence of lines with the file it belongs to.
//!
//! A buffer is modelled by the sequence of the UTF-8 bytes of its lines.
//! Places are given as `Location`s. A place that does not exist is never an
//! error: the operation then does nothing.

use vstd::prelude::*;
use vstd::string::*;
use vstd::utf8::*;
use crate::fileinfo::FileInfo;
use crate::text::chars_vec;
use crate::line::{cluster_begin, cluster_bytes, cluster_count, first_match_from, inserted};
use crate::line::{last_match_before, lemma_cluster_order, removed, Line};
use crate::location::Location;
use crate::text::{byte_len, capped, lemma_encode_concat, lemma_floor_boundary};
use crate::unicode::push_char;

verus! {

/// The bytes of each of `lines`.
pub open spec fn texts_of(lines: Seq<Line>) -> Seq<Seq<u8>> {
    Seq::new(lines.len(), |i: int| lines[i]@)
}

/// Every one of `lines` is well formed.
pub open spec fn all_wf(lines: Seq<Line>) -> bool {
    forall|i: int| 0 <= i < lines.len() ==> (#[trigger] lines[i]).wf()
}

/// The lines after `c` was inserted at `at`: into the line, as a new last
/// line if `at` is the line behind the last, and not at all further down.
pub open spec fn char_inserted(lines: Seq<Seq<u8>>, c: char, at: Location) -> Seq<Seq<u8>> {
    if at.line_idx > lines.len() {
        lines
    } else if at.line_idx == lines.len() {
        lines.push(encode_utf8(seq![c]))
    } else {
        lines.update(at.line_idx as int, inserted(lines[at.line_idx as int], c, at.grapheme_idx as int))
    }
}

/// The lines after a line break was inserted at `at`: the line is cut in
/// front of the cluster, an empty line is added if `at` is the line behind
/// the last, and nothing happens further down.
pub open spec fn newline_inserted(lines: Seq<Seq<u8>>, at: Location) -> Seq<Seq<u8>> {
    if at.line_idx > lines.len() {
        lines
    } else if at.line_idx == lines.len() {
        lines.push(Seq::empty())
    } else {
        let line = lines[at.line_idx as int];
        let cut = cluster_begin(line, at.grapheme_idx as int);
        lines.update(at.line_idx as int, line.subrange(0, cut)).insert(
            at.line_idx + 1,
            line.subrange(cut, line.len() as int),
        )
    }
}

/// The lines after what stands at `at` was deleted: the cluster, or the line
/// break if `at` is at or behind the end of a line that is not the last.
pub open spec fn deleted_at(lines: Seq<Seq<u8>>, at: Location) -> Seq<Seq<u8>> {
    if at.line_idx >= lines.len() {
        lines
    } else {
        let line = lines[at.line_idx as int];
        if at.grapheme_idx >= cluster_count(line) {
            if at.line_idx + 1 < lines.len() {
                lines.update(at.line_idx as int, line + lines[at.line_idx + 1]).remove(at.line_idx + 1)
            } else {
                lines
            }
        } else {
            lines.update(at.line_idx as int, removed(line, at.grapheme_idx as int))
        }
    }
}

/// Whether a deletion at `at` changes anything.
pub open spec fn deletes_at(lines: Seq<Seq<u8>>, at: Location) -> bool {
    at.line_idx < lines.len() && (at.grapheme_idx < cluster_count(lines[at.line_idx as int])
        || at.line_idx + 1 < lines.len())
}

/// `chars` with every line ending, be it `\r\n` or a lone `\r`, turned into
/// `\n`.
pub open spec fn normalized(chars: Seq<char>) -> Seq<char>
    decreases chars.len(),
{
    if chars.len() == 0 {
        Seq::empty()
    } else if chars[0] == '\r' && chars.len() > 1 && chars[1] == '\n' {
        seq!['\n'] + normalized(chars.subrange(2, chars.len() as int))
    } else if chars[0] == '\r' {
        seq!['\n'] + normalized(chars.drop_first())
    } else {
        seq![chars[0]] + normalized(chars.drop_first())
    }
}

/// The place behind a character `c` that was typed at `at`.
pub open spec fn advanced(at: Location, c: char) -> Location {
    if c == '\n' {
        Location { line_idx: capped(at.line_idx + 1) as usize, grapheme_idx: 0 }
    } else {
        Location { line_idx: at.line_idx, grapheme_idx: capped(at.grapheme_idx + 1) as usize }
    }
}

/// The place behind `chars` typed from `from` on: a line break leads to the
/// start of the next line, any other character one cluster on.
pub open spec fn location_after(from: Location, chars: Seq<char>) -> Location
    decreases chars.len(),
{
    if chars.len() == 0 {
        from
    } else {
        advanced(location_after(from, chars.drop_last()), chars.last())
    }
}

/// The lines after `chars` were typed from `from` on, one after the other: a
/// line break cuts the line, any other character is inserted.
pub open spec fn typed(lines: Seq<Seq<u8>>, from: Location, chars: Seq<char>) -> Seq<Seq<u8>>
    decreases chars.len(),
{
    if chars.len() == 0 {
        lines
    } else {
        let before = typed(lines, from, chars.drop_last());
        let at = location_after(from, chars.drop_last());
        if chars.last() == '\n' {
            newline_inserted(before, at)
        } else {
            char_inserted(before, chars.last(), at)
        }
    }
}

/// Whether typing `chars` from `from` on changes anything.
pub open spec fn types_anything(lines: Seq<Seq<u8>>, from: Location, chars: Seq<char>) -> bool
    decreases chars.len(),
{
    if chars.len() == 0 {
        false
    } else {
        types_anything(lines, from, chars.drop_last()) || location_after(
            from,
            chars.drop_last(),
        ).line_idx <= typed(lines, from, chars.drop_last()).len()
    }
}

/// The lines after what stands from `from` up to `to` was deleted: the head
/// of the first line and the tail of the last are joined, and the lines
/// between them are gone. Nothing happens unless `from` comes before `to`
/// and both lines exist.
pub open spec fn range_deleted(lines: Seq<Seq<u8>>, from: Location, to: Location) -> Seq<Seq<u8>> {
    if !from.before(to) || to.line_idx >= lines.len() {
        lines
    } else {
        let first = lines[from.line_idx as int];
        let last = lines[to.line_idx as int];
        let head = first.subrange(0, cluster_begin(first, from.grapheme_idx as int));
        let tail = last.subrange(cluster_begin(last, to.grapheme_idx as int), last.len() as int);
        lines.subrange(0, from.line_idx as int).push(head + tail) + lines.subrange(
            to.line_idx + 1,
            lines.len() as int,
        )
    }
}

/// Whether deleting from `from` up to `to` changes anything.
pub open spec fn deletes_range(lines: Seq<Seq<u8>>, from: Location, to: Location) -> bool {
    from.before(to) && to.line_idx < lines.len() && (from.line_idx < to.line_idx || cluster_begin(
        lines[from.line_idx as int],
        from.grapheme_idx as int,
    ) < cluster_begin(lines[from.line_idx as int], to.grapheme_idx as int))
}

/// The line that a forward search looks at in its `k`-th step, and the
/// cluster from which it looks: the search starts on the line of `from`, at
/// its cluster, and goes down line by line from the start of each, going on
/// at the top behind the last line.
pub open spec fn forward_probe(height: int, from: Location, k: int) -> Location {
    Location {
        line_idx: ((from.line_idx + k) % height) as usize,
        grapheme_idx: if k == 0 {
            from.grapheme_idx
        } else {
            0
        },
    }
}

/// The first hit of `query` in the steps `k..=height` of a forward search.
pub open spec fn forward_hit(lines: Seq<Seq<u8>>, query: Seq<u8>, from: Location, k: int) -> Option<
    Location,
>
    decreases lines.len() + 1 - k,
{
    if k < 0 || k > lines.len() || lines.len() == 0 {
        None
    } else {
        let probe = forward_probe(lines.len() as int, from, k);
        match first_match_from(lines[probe.line_idx as int], query, probe.grapheme_idx as int) {
            Some(g) => Some(Location { line_idx: probe.line_idx, grapheme_idx: g as usize }),
            None => forward_hit(lines, query, from, k + 1),
        }
    }
}

/// The place of the first hit of `query` at or behind `from`, the search
/// going round the document once. An empty query is found nowhere.
pub open spec fn found_forward(lines: Seq<Seq<u8>>, query: Seq<u8>, from: Location) -> Option<Location> {
    if query.len() == 0 {
        None
    } else {
        forward_hit(lines, query, from, 0)
    }
}

/// The line on which a backward search starts: that of `from`, or the last
/// one if `from` lies below the document.
pub open spec fn backward_start(height: int, from: Location) -> int {
    if from.line_idx < height {
        from.line_idx as int
    } else {
        height - 1
    }
}

/// The line that a backward search looks at in its `k`-th step: it goes up
/// line by line and goes on at the bottom above the first line.
pub open spec fn backward_line(height: int, from: Location, k: int) -> int {
    (backward_start(height, from) - k) % height
}

/// The last hit of `query` in the steps `k..=height` of a backward search.
/// The first step looks before the cluster of `from`, every other at the
/// whole line.
pub open spec fn backward_hit(lines: Seq<Seq<u8>>, query: Seq<u8>, from: Location, k: int) -> Option<
    Location,
>
    decreases lines.len() + 1 - k,
{
    if k < 0 || k > lines.len() || lines.len() == 0 {
        None
    } else {
        let line_idx = backward_line(lines.len() as int, from, k);
        let line = lines[line_idx];
        let before = if k == 0 {
            from.grapheme_idx as int
        } else {
            cluster_count(line) as int
        };
        match last_match_before(line, query, before) {
            Some(g) => Some(Location { line_idx: line_idx as usize, grapheme_idx: g as usize }),
            None => backward_hit(lines, query, from, k + 1),
        }
    }
}

/// The place of the last hit of `query` before `from`, the search going
/// round the document once. An empty query is found nowhere.
pub open spec fn found_backward(lines: Seq<Seq<u8>>, query: Seq<u8>, from: Location) -> Option<
    Location,
> {
    if query.len() == 0 {
        None
    } else {
        backward_hit(lines, query, from, 0)
    }
}

/// The text of a document as it is written to a file: every line with a line
/// feed behind it.
pub open spec fn file_text(lines: Seq<Seq<u8>>) -> Seq<u8>
    decreases lines.len(),
{
    if lines.len() == 0 {
        Seq::empty()
    } else {
        file_text(lines.drop_last()) + lines.last() + encode_utf8(seq!['\n'])
    }
}

/// The index of the first line feed of `chars` at or after `i`; the length
/// of `chars` if there is none.
pub open spec fn line_end(chars: Seq<char>, i: int) -> int
    decreases chars.len() - i,
{
    if i < 0 || i >= chars.len() || chars[i] == '\n' {
        i
    } else {
        line_end(chars, i + 1)
    }
}

/// The lines of the text `chars` from index `i` on. A line ends at a line
/// feed; a carriage return in front of the line feed belongs to the line
/// ending. Nothing follows the last line ending.
pub open spec fn lines_from(chars: Seq<char>, i: int) -> Seq<Seq<char>>
    decreases chars.len() - i + 1,
{
    if i < 0 || i >= chars.len() {
        Seq::empty()
    } else {
        let end = line_end(chars, i);
        proof {
            lemma_line_end(chars, i);
        }
        let stop = if end < chars.len() && end > i && chars[end - 1] == '\r' {
            end - 1
        } else {
            end
        };
        seq![chars.subrange(i, stop)] + lines_from(chars, end + 1)
    }
}

/// A line ends at or behind its start, inside the text.
pub proof fn lemma_line_end(chars: Seq<char>, i: int)
    requires
        0 <= i <= chars.len(),
    ensures
        i <= line_end(chars, i) <= chars.len(),
    decreases chars.len() - i,
{
    if i < chars.len() && chars[i] != '\n' {
        lemma_line_end(chars, i + 1);
    }
}

/// The bytes of each of `texts`.
pub open spec fn encoded(texts: Seq<Seq<char>>) -> Seq<Seq<u8>> {
    Seq::new(texts.len(), |i: int| encode_utf8(texts[i]))
}

/// A document.
pub struct Buffer {
    pub lines: Vec<Line>,
    pub file_info: FileInfo,
    pub modified: bool,
}

impl View for Buffer {
    type V = Seq<Seq<u8>>;

    /// The bytes of the lines.
    open spec fn view(&self) -> Seq<Seq<u8>> {
        texts_of(self.lines@)
    }
}

impl Buffer {
    /// Every line is well formed.
    pub open spec fn wf(&self) -> bool {
        all_wf(self.lines@)
    }

    /// The empty document without a file: it has no lines, is not modified,
    /// and has neither a path nor an extension, so that it is shown under
    /// the name of a buffer without a file.
    pub fn new() -> (r: Self)
        ensures
            r.wf(),
            r.lines@ == Seq::<Line>::empty(),
            r@ == Seq::<Seq<u8>>::empty(),
            !r.modified,
            r.file_info.path() is None,
            r.file_info.extension() is None,
            r.file_info.name() == FileInfo::no_name(),
    {
        let r = Buffer { lines: Vec::new(), file_info: FileInfo::new(), modified: false };
        assert(r@ =~= Seq::<Seq<u8>>::empty());
        r
    }

    /// The document with the lines `lines`, as it was read from the file that
    /// `file_info` describes.
    pub fn from_lines(lines: Vec<Line>, file_info: FileInfo) -> (r: Self)
        requires
            all_wf(lines@),
        ensures
            r.wf(),
            r.lines == lines,
            r.file_info == file_info,
            !r.modified,
    {
        Buffer { lines, file_info, modified: false }
    }

    /// The document that the file described by `file_info` holds, given its
    /// text `contents`.
    pub fn load(file_info: FileInfo, contents: &str) -> (r: Self)
        ensures
            r.wf(),
            r@ == encoded(lines_from(contents@, 0)),
            r.file_info == file_info,
            !r.modified,
    {
        let chars = chars_vec(contents);
        let mut lines: Vec<Line> = Vec::new();
        let mut i: usize = 0;
        let ghost all = lines_from(chars@, 0);
        assert(encoded(Seq::<Seq<char>>::empty()) =~= Seq::<Seq<u8>>::empty());
        assert(texts_of(lines@) =~= Seq::<Seq<u8>>::empty());
        while i < chars.len()
            invariant
                i <= chars.len(),
                chars@ == contents@,
                all == lines_from(chars@, 0),
                all_wf(lines@),
                encoded(all) == texts_of(lines@) + encoded(lines_from(chars@, i as int)),
            decreases chars.len() - i,
        {
            let mut end = i;
            while end < chars.len() && chars[end] != '\n'
                invariant
                    i <= end <= chars.len(),
                    line_end(chars@, end as int) == line_end(chars@, i as int),
                decreases chars.len() - end,
            {
                end += 1;
            }
            let stop = if end < chars.len() && end > i && chars[end - 1] == '\r' {
                end - 1
            } else {
                end
            };
            let mut text = String::new();
            let mut k = i;
            while k < stop
                invariant
                    i <= k <= stop <= chars.len(),
                    text@ == chars@.subrange(i as int, k as int),
                decreases stop - k,
            {
                push_char(&mut text, chars[k]);
                k += 1;
                assert(text@ =~= chars@.subrange(i as int, k as int));
            }
            let ghost before = texts_of(lines@);
            let ghost rest = lines_from(chars@, end + 1);
            lines.push(Line::from(text.as_str()));
            proof {
                assert(texts_of(lines@) =~= before.push(encode_utf8(text@)));
                assert(encoded(lines_from(chars@, i as int)) =~= seq![encode_utf8(text@)] + encoded(rest));
                assert(encoded(all) =~= texts_of(lines@) + encoded(rest));
            }
            if end == chars.len() {
                assert(encoded(rest) =~= Seq::<Seq<u8>>::empty());
                assert(encoded(all) =~= texts_of(lines@));
                return Buffer { lines, file_info, modified: false };
            }
            i = end + 1;
        }
        assert(encoded(lines_from(chars@, i as int)) =~= Seq::<Seq<u8>>::empty());
        Buffer { lines, file_info, modified: false }
    }

    /// The text of the document as it is written to its file: every line
    /// with a line feed behind it.
    pub fn contents(&self) -> (r: String)
        ensures
            encode_utf8(r@) == file_text(self@),
    {
        let mut r = String::new();
        let mut i: usize = 0;
        assert(texts_of(self.lines@).take(0) =~= Seq::<Seq<u8>>::empty());
        while i < self.lines.len()
            invariant
                i <= self.lines.len(),
                encode_utf8(r@) == file_text(self@.take(i as int)),
            decreases self.lines.len() - i,
        {
            let ghost before = r@;
            let line = self.lines[i].as_str();
            r.append(line);
            push_char(&mut r, '\n');
            proof {
                assert(self@.take(i + 1).drop_last() =~= self@.take(i as int));
                assert(self@.take(i + 1).last() == self.lines@[i as int]@);
                assert(r@ =~= before + line@ + seq!['\n']);
                lemma_encode_concat(before, line@);
                lemma_encode_concat(before + line@, seq!['\n']);
            }
            i += 1;
        }
        assert(self@.take(self.lines.len() as int) =~= self@);
        r
    }

    /// Records the outcome of writing the document to the file
    /// `file_info`: if it was written, the document belongs to that file from
    /// now on and is no longer modified; else nothing changes.
    pub fn save_as(&mut self, file_info: FileInfo, written: bool)
        ensures
            final(self).lines == old(self).lines,
            written ==> final(self).file_info == file_info && !final(self).modified,
            !written ==> final(self).file_info == old(self).file_info && final(self).modified == old(self).modified,
    {
        if written {
            self.file_info = file_info;
            self.modified = false;
        }
    }

    /// Records the outcome of writing the document to its file: if it was
    /// written, the document is no longer modified; else nothing changes.
    pub fn save(&mut self, written: bool)
        ensures
            final(self).lines == old(self).lines,
            final(self).file_info == old(self).file_info,
            final(self).modified == (old(self).modified && !written),
    {
        if written {
            self.modified = false;
        }
    }

    /// Whether the document belongs to a file.
    pub fn is_file_loaded(&self) -> (r: bool)
        ensures
            r == self.file_info.path() is Some,
    {
        self.file_info.has_path()
    }

    /// Whether the document has no lines.
    pub fn is_empty(&self) -> (r: bool)
        ensures
            r == (self@.len() == 0),
    {
        self.lines.len() == 0
    }

    /// The number of lines.
    pub fn height(&self) -> (r: usize)
        ensures
            r == self@.len(),
    {
        self.lines.len()
    }

    /// Inserts `character` at `at`: in front of that cluster of the line, at
    /// its end if there is no such cluster, or as a new line if `at` is the
    /// line behind the last. Further down nothing happens.
    pub fn insert_char(&mut self, character: char, at: Location)
        requires
            old(self).wf(),
        ensures
            final(self).wf(),
            final(self)@ == char_inserted(old(self)@, character, at),
            final(self).modified == (old(self).modified || at.line_idx <= old(self)@.len()),
            final(self).file_info == old(self).file_info,
    {
        if at.line_idx > self.height() {
            return;
        }
        if at.line_idx == self.height() {
            let mut line = Line::new();
            line.append_char(character);
            self.lines.push(line);
            self.modified = true;
            assert(self@ =~= char_inserted(old(self)@, character, at));
        } else {
            self.lines[at.line_idx].insert_char(character, at.grapheme_idx);
            self.modified = true;
            assert(self@ =~= char_inserted(old(self)@, character, at));
        }
    }

    fn take_line(&self, line_idx: usize) -> (line: Line)
        requires
            self.wf(),
            line_idx < self@.len(),
        ensures
            line.wf(),
            line@ == self@[line_idx as int],
    {
        Line::from(self.lines[line_idx].as_str())
    }

    fn put_line(&mut self, line_idx: usize, line: Line)
        requires
            old(self).wf(),
            line.wf(),
            line_idx < old(self)@.len(),
        ensures
            final(self).wf(),
            final(self)@ == old(self)@.update(line_idx as int, line@),
            final(self).modified == old(self).modified,
            final(self).file_info == old(self).file_info,
    {
        self.lines[line_idx] = line;
        assert(self@ =~= old(self)@.update(line_idx as int, line@));
    }

    /// Deletes what stands at `at`: the cluster, or the line break if `at` is
    /// at or behind the end of a line that is not the last. Elsewhere nothing
    /// happens.
    pub fn delete(&mut self, at: Location)
        requires
            old(self).wf(),
        ensures
            final(self).wf(),
            final(self)@ == deleted_at(old(self)@, at),
            final(self).modified == (old(self).modified || deletes_at(old(self)@, at)),
            final(self).file_info == old(self).file_info,
    {
        if at.line_idx >= self.height() {
            return;
        }
        let count = self.lines[at.line_idx].grapheme_count();
        if at.grapheme_idx >= count && self.height() - at.line_idx > 1 {
            let next_line = self.lines.remove(at.line_idx + 1);
            self.lines[at.line_idx].append(&next_line);
            self.modified = true;
            assert(self@ =~= deleted_at(old(self)@, at));
        } else if at.grapheme_idx < count {
            self.lines[at.line_idx].delete(at.grapheme_idx);
            self.modified = true;
            assert(self@ =~= deleted_at(old(self)@, at));
        }
    }

    /// Inserts a line break at `at`: the line is cut in front of that
    /// cluster, or an empty line is added if `at` is the line behind the
    /// last. Further down nothing happens.
    pub fn insert_newline(&mut self, at: Location)
        requires
            old(self).wf(),
        ensures
            final(self).wf(),
            final(self)@ == newline_inserted(old(self)@, at),
            final(self).modified == (old(self).modified || at.line_idx <= old(self)@.len()),
            final(self).file_info == old(self).file_info,
    {
        if at.line_idx == self.height() {
            self.lines.push(Line::new());
            self.modified = true;
            assert(self@ =~= newline_inserted(old(self)@, at));
        } else if at.line_idx < self.height() {
            let rest = self.lines[at.line_idx].split(at.grapheme_idx);
            self.lines.insert(at.line_idx + 1, rest);
            self.modified = true;
            assert(self@ =~= newline_inserted(old(self)@, at));
        }
    }

    /// Inserts `text` at `at`, character by character, and returns the place
    /// behind it. Line endings of every kind count as one line break.
    pub fn insert_string(&mut self, at: Location, text: &str) -> (end: Location)
        requires
            old(self).wf(),
        ensures
            final(self).wf(),
            final(self)@ == typed(old(self)@, at, normalized(text@)),
            end == location_after(at, normalized(text@)),
            final(self).modified == (old(self).modified || types_anything(
                old(self)@,
                at,
                normalized(text@),
            )),
            final(self).file_info == old(self).file_info,
    {
        let chars = Self::normalize_newlines(&chars_vec(text));
        let mut at = at;
        let ghost start = at;
        let mut i: usize = 0;
        assert(chars@.take(0) =~= Seq::<char>::empty());
        while i < chars.len()
            invariant
                i <= chars.len(),
                self.wf(),
                self@ == typed(old(self)@, start, chars@.take(i as int)),
                at == location_after(start, chars@.take(i as int)),
                self.modified == (old(self).modified || types_anything(
                    old(self)@,
                    start,
                    chars@.take(i as int),
                )),
                self.file_info == old(self).file_info,
            decreases chars.len() - i,
        {
            proof {
                assert(chars@.take(i + 1).drop_last() =~= chars@.take(i as int));
                assert(chars@.take(i + 1).last() == chars@[i as int]);
            }
            let c = chars[i];
            if c == '\n' {
                self.insert_newline(at);
                at = Location { line_idx: at.line_idx.saturating_add(1), grapheme_idx: 0 };
            } else {
                self.insert_char(c, at);
                at = Location { line_idx: at.line_idx, grapheme_idx: at.grapheme_idx.saturating_add(1) };
            }
            i += 1;
        }
        assert(chars@.take(chars.len() as int) =~= chars@);
        at
    }

    /// `chars` with every line ending turned into a line feed.
    pub fn normalize_newlines(chars: &Vec<char>) -> (r: Vec<char>)
        ensures
            r@ == normalized(chars@),
    {
        let mut r: Vec<char> = Vec::new();
        let mut i: usize = 0;
        assert(chars@.subrange(0, chars.len() as int) =~= chars@);
        assert(r@ + normalized(chars@) =~= normalized(chars@));
        while i < chars.len()
            invariant
                i <= chars.len(),
                normalized(chars@) == r@ + normalized(chars@.subrange(i as int, chars.len() as int)),
            decreases chars.len() - i,
        {
            let ghost rest = chars@.subrange(i as int, chars.len() as int);
            if chars[i] == '\r' && chars.len() - i > 1 && chars[i + 1] == '\n' {
                r.push('\n');
                assert(rest.subrange(2, rest.len() as int) =~= chars@.subrange(i + 2, chars.len() as int));
                i += 2;
            } else if chars[i] == '\r' {
                r.push('\n');
                assert(rest.drop_first() =~= chars@.subrange(i + 1, chars.len() as int));
                i += 1;
            } else {
                r.push(chars[i]);
                assert(rest.drop_first() =~= chars@.subrange(i + 1, chars.len() as int));
                i += 1;
            }
            assert(normalized(chars@) =~= r@ + normalized(chars@.subrange(i as int, chars.len() as int)));
        }
        assert(chars@.subrange(chars.len() as int, chars.len() as int) =~= Seq::<char>::empty());
        assert(normalized(chars@) =~= r@);
        r
    }

    /// The text of the cluster at `loc`, if there is one.
    pub fn content_at(&self, loc: Location) -> (r: Option<String>)
        requires
            self.wf(),
        ensures
            r is Some <==> loc.line_idx < self@.len() && loc.grapheme_idx < cluster_count(
                self@[loc.line_idx as int],
            ),
            r is Some ==> encode_utf8(r->0@) == cluster_bytes(
                self@[loc.line_idx as int],
                loc.grapheme_idx as int,
            ),
    {
        if loc.line_idx < self.lines.len() {
            self.lines[loc.line_idx].grapheme_at(loc.grapheme_idx)
        } else {
            None
        }
    }

    /// What a deletion at `loc` would take away: the text of the cluster, a
    /// line feed for a line break, or nothing.
    pub fn content_deleted_at(&self, loc: Location) -> (r: Option<String>)
        requires
            self.wf(),
        ensures
            r is Some <==> deletes_at(self@, loc),
            r is Some ==> encode_utf8(r->0@) == if loc.grapheme_idx < cluster_count(
                self@[loc.line_idx as int],
            ) {
                cluster_bytes(self@[loc.line_idx as int], loc.grapheme_idx as int)
            } else {
                encode_utf8(seq!['\n'])
            },
    {
        if loc.line_idx < self.lines.len() {
            let count = self.lines[loc.line_idx].grapheme_count();
            if loc.grapheme_idx < count {
                return self.lines[loc.line_idx].grapheme_at(loc.grapheme_idx);
            }
            if self.height() - loc.line_idx > 1 {
                let mut r = String::new();
                push_char(&mut r, '\n');
                assert(r@ =~= seq!['\n']);
                return Some(r);
            }
        }
        None
    }

    /// The place behind `text` typed from `from` on: a line feed leads to the
    /// start of the next line, any other character one cluster on.
    pub fn location_after_text(from: Location, text: &str) -> (r: Location)
        ensures
            r == location_after(from, text@),
    {
        let chars = chars_vec(text);
        let mut at = from;
        let mut i: usize = 0;
        assert(chars@.take(0) =~= Seq::<char>::empty());
        while i < chars.len()
            invariant
                i <= chars.len(),
                chars@ == text@,
                at == location_after(from, chars@.take(i as int)),
            decreases chars.len() - i,
        {
            proof {
                assert(chars@.take(i + 1).drop_last() =~= chars@.take(i as int));
                assert(chars@.take(i + 1).last() == chars@[i as int]);
            }
            if chars[i] == '\n' {
                at = Location { line_idx: at.line_idx.saturating_add(1), grapheme_idx: 0 };
            } else {
                at = Location { line_idx: at.line_idx, grapheme_idx: at.grapheme_idx.saturating_add(1) };
            }
            i += 1;
        }
        assert(chars@.take(chars.len() as int) =~= chars@);
        at
    }

    /// Deletes what stands from `from` up to, not including, `to`. The head
    /// of the first line and the tail of the last are joined and the lines
    /// between them go. Nothing happens unless `from` comes before `to` and
    /// both lines exist.
    pub fn delete_range(&mut self, from: Location, to: Location)
        requires
            old(self).wf(),
        ensures
            final(self).wf(),
            final(self)@ == range_deleted(old(self)@, from, to),
            final(self).modified == (old(self).modified || deletes_range(old(self)@, from, to)),
            final(self).file_info == old(self).file_info,
    {
        let height = self.height();
        if to.line_idx >= height || from.line_idx > to.line_idx {
            return;
        }
        if from.line_idx == to.line_idx && from.grapheme_idx >= to.grapheme_idx {
            return;
        }
        let first = self.take_line(from.line_idx);
        let last = self.take_line(to.line_idx);
        let start_byte = first.grapheme_to_byte_idx(from.grapheme_idx);
        let end_byte = last.grapheme_to_byte_idx(to.grapheme_idx);
        proof {
            first.lemma_wf();
            last.lemma_wf();
        }
        if from.line_idx == to.line_idx && start_byte >= end_byte {
            proof {
                lemma_cluster_order(first@, from.grapheme_idx as int, to.grapheme_idx as int);
                assert(first@.subrange(0, start_byte as int) + first@.subrange(
                    start_byte as int,
                    first@.len() as int,
                ) =~= first@);
                assert(self@ =~= range_deleted(old(self)@, from, to));
            }
            return;
        }
        let mut head = first;
        let first_len = head.line_length();
        head.delete_byte_range(start_byte..first_len);
        let mut tail = last;
        tail.delete_byte_range(0..end_byte);
        proof {
            lemma_floor_boundary(first@, start_byte as int);
            lemma_floor_boundary(first@, first_len as int);
            lemma_floor_boundary(last@, 0);
            lemma_floor_boundary(last@, end_byte as int);
            assert(head@ =~= first@.subrange(0, start_byte as int));
            assert(tail@ =~= last@.subrange(end_byte as int, last@.len() as int));
        }
        head.append(&tail);
        let mut remaining = to.line_idx - from.line_idx;
        while remaining > 0
            invariant
                self.wf(),
                from.line_idx + remaining < self.lines.len(),
                self@ == old(self)@.subrange(0, from.line_idx + 1) + old(self)@.subrange(
                    to.line_idx + 1 - remaining,
                    old(self)@.len() as int,
                ),
                to.line_idx < old(self)@.len(),
                remaining <= to.line_idx - from.line_idx,
                self.modified == old(self).modified,
                self.file_info == old(self).file_info,
            decreases remaining,
        {
            let ghost before = self@;
            self.lines.remove(from.line_idx + 1);
            remaining -= 1;
            assert(self@ =~= before.remove(from.line_idx + 1));
            assert(self@ =~= old(self)@.subrange(0, from.line_idx + 1) + old(self)@.subrange(
                to.line_idx + 1 - remaining,
                old(self)@.len() as int,
            ));
        }
        self.put_line(from.line_idx, head);
        self.modified = true;
        assert(self@ =~= range_deleted(old(self)@, from, to));
    }

    /// Deletes what `text` takes when it is typed at `from`: the stretch
    /// from `from` up to the place behind the text.
    pub fn delete_span(&mut self, from: Location, text: &str)
        requires
            old(self).wf(),
        ensures
            final(self).wf(),
            final(self)@ == range_deleted(old(self)@, from, location_after(from, text@)),
            final(self).modified == (old(self).modified || deletes_range(
                old(self)@,
                from,
                location_after(from, text@),
            )),
            final(self).file_info == old(self).file_info,
    {
        let to = Self::location_after_text(from, text);
        self.delete_range(from, to);
    }

    /// The place of the first hit of `query` at or behind `from`. The search
    /// goes down the document and on at its top, once round. An empty query
    /// is found nowhere.
    pub fn search_forward(&self, query: &str, from: Location) -> (r: Option<Location>)
        requires
            self.wf(),
        ensures
            r == found_forward(self@, query.spec_bytes(), from),
    {
        let height = self.lines.len();
        if byte_len(query) == 0 || height == 0 {
            return None;
        }
        let start = from.line_idx % height;
        let mut k: usize = 0;
        while k <= height
            invariant
                self.wf(),
                height == self.lines.len(),
                height > 0,
                query.spec_bytes().len() > 0,
                start == from.line_idx % height,
                k <= height + 1,
                forward_hit(self@, query.spec_bytes(), from, 0) == forward_hit(
                    self@,
                    query.spec_bytes(),
                    from,
                    k as int,
                ),
            decreases height + 1 - k,
        {
            let line_idx = if k < height - start {
                start + k
            } else if k - (height - start) < height {
                k - (height - start)
            } else {
                k - (height - start) - height
            };
            assert(line_idx == (from.line_idx + k) % (height as int)) by (nonlinear_arith)
                requires
                    height > 0,
                    k <= height,
                    start == from.line_idx % height,
                    line_idx == if k < height - start {
                        start + k
                    } else if k - (height - start) < height {
                        k - (height - start)
                    } else {
                        k - (height - start) - height
                    },
            ;
            let from_grapheme_idx = if k == 0 {
                from.grapheme_idx
            } else {
                0
            };
            match self.lines[line_idx].search_forward(query, from_grapheme_idx) {
                Some(grapheme_idx) => {
                    return Some(Location { grapheme_idx, line_idx });
                },
                None => {},
            }
            if k == height {
                assert(forward_hit(self@, query.spec_bytes(), from, k + 1) is None);
                return None;
            }
            k += 1;
        }
        None
    }

    /// The place of the last hit of `query` before `from`. The search goes
    /// up the document and on at its bottom, once round. An empty query is
    /// found nowhere.
    pub fn search_backward(&self, query: &str, from: Location) -> (r: Option<Location>)
        requires
            self.wf(),
        ensures
            r == found_backward(self@, query.spec_bytes(), from),
    {
        let height = self.lines.len();
        if byte_len(query) == 0 || height == 0 {
            return None;
        }
        let start = if from.line_idx < height {
            from.line_idx
        } else {
            height - 1
        };
        let mut k: usize = 0;
        while k <= height
            invariant
                self.wf(),
                height == self.lines.len(),
                height > 0,
                query.spec_bytes().len() > 0,
                start == backward_start(height as int, from),
                k <= height + 1,
                backward_hit(self@, query.spec_bytes(), from, 0) == backward_hit(
                    self@,
                    query.spec_bytes(),
                    from,
                    k as int,
                ),
            decreases height + 1 - k,
        {
            let line_idx = if k <= start {
                start - k
            } else if k - start <= height {
                height - (k - start)
            } else {
                0
            };
            assert(line_idx == (start - k) % (height as int)) by (nonlinear_arith)
                requires
                    height > 0,
                    k <= height,
                    start < height,
                    line_idx == if k <= start {
                        start - k
                    } else {
                        height - (k - start)
                    },
            ;
            let from_grapheme_idx = if k == 0 {
                from.grapheme_idx
            } else {
                self.lines[line_idx].grapheme_count()
            };
            match self.lines[line_idx].search_backward(query, from_grapheme_idx) {
                Some(grapheme_idx) => {
                    return Some(Location { grapheme_idx, line_idx });
                },
                None => {},
            }
            if k == height {
                assert(backward_hit(self@, query.spec_bytes(), from, k + 1) is None);
                return None;
            }
            k += 1;
        }
        None
    }
}

impl Default for Buffer {
    fn default() -> (r: Self)
        ensures
            r.wf(),
            r@ == Seq::<Seq<u8>>::empty(),
            !r.modified,
    {
        Self::new()
    }
}

} // verus!
