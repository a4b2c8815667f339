//! The view of a document: the buffer with caret, window, selection and
//! search, and what of it is shown on the screen.
//!
//! What every command does is stated in `view_state`, as a function on the
//! plain state of the view. The methods here carry it out on the buffer.
//! Reading and writing files, the clipboard and the terminal are not done
//! here: the caller hands in what was read and carries out what is to be
//! written or shown.

use std::collections::HashMap;
use std::ops::Range;
use vstd::prelude::*;
use vstd::std_specs::hash::*;
use vstd::string::*;
use vstd::utf8::*;
use vstd::view::View as _;
use crate::annotated_string::AnnotatedString;
use crate::annotation::Annotation;
use crate::buffer::{file_text, normalized, Buffer};
use crate::command::{Edit, Move, MoveDirection};
use crate::document_status::DocumentStatus;
use crate::editor_command::{EditorCommand, MoveCommand};
use crate::fileinfo::FileInfo;
use crate::highlight::highlighter::{annotations_within, HighlightAnnotation, HighlightState, Highlighter};
use crate::highlight::registry::{HighlighterRegistry, LanguageHighlighter};
use crate::text::chars_vec;
use crate::line::{line_annotations_of, window, Line};
use crate::location::Location;
use crate::position::Position;
use crate::selection::{selected_bytes, selected_ranges, Selection};
use crate::size::Size;
use crate::text::{capped, lemma_encode_concat, substr};
use crate::ui_component::UIComponent;
use crate::unicode::push_char;
use crate::view_state::{minus, SearchDirection, SearchState, ViewState};

verus! {

/// The name of the editor.
pub const NAME: &'static str = "den";

/// The version of the editor.
pub const VERSION: &'static str = "0.1.0";

/// A search that is going on.
pub struct SearchInfo {
    pub prev_location: Location,
    pub prev_scroll_offset: Position,
    pub query: Option<Line>,
}

/// What the highlighter found on a line, the state behind the line, and the
/// version of the document for which this holds.
pub struct CacheEntry {
    pub annotations: Vec<HighlightAnnotation>,
    pub state: HighlightState,
    pub version: u64,
}

/// A row of the window: what is shown of a line, or the mark of a row below
/// the document.
pub enum ScreenRow {
    Text(AnnotatedString),
    Empty,
}

/// What the caller is to do with the clipboard after an edit command.
pub enum ClipboardRequest {
    /// Nothing.
    Nothing,
    /// Put this text on the clipboard.
    Store(String),
    /// Read the clipboard and paste what it holds.
    Fetch,
}

/// The state of the highlighter `h` in front of line `i` of `lines`: the
/// state in which a document starts, taken through the lines above.
pub open spec fn state_before(h: LanguageHighlighter, lines: Seq<Seq<u8>>, i: int) -> HighlightState
    decreases i,
{
    if i <= 0 || i > lines.len() {
        HighlightState::initial()
    } else {
        h.highlighted(decode_utf8(lines[i - 1]), state_before(h, lines, i - 1)).1
    }
}

/// What the highlighter `h` finds on line `i` of `lines`.
pub open spec fn line_highlights(h: Option<LanguageHighlighter>, lines: Seq<Seq<u8>>, i: int) -> Seq<
    HighlightAnnotation,
> {
    match h {
        Some(h) => h.highlighted(decode_utf8(lines[i]), state_before(h, lines, i)).0,
        None => Seq::empty(),
    }
}

/// The selected bytes of line `line_idx`, if any.
pub open spec fn selection_on(selection: Option<Selection>, line: Seq<u8>, line_idx: int) -> Option<
    Range<usize>,
> {
    match selection {
        Some(selection) => match selected_bytes(selection.ordered(), line, line_idx) {
            Some((from, to)) => Some(Range { start: from as usize, end: to as usize }),
            None => None,
        },
        None => None,
    }
}

/// What row `screen_row` of the window shows: the text and the annotations
/// of the line of the document that lies there, cut to the columns of the
/// window, or `None` below the document. The annotations are those of the
/// highlighter `h`, a match for every hit of the query of the search, which
/// is the selected match where the caret stands, and the selection.
pub open spec fn shown_row(s: ViewState, h: Option<LanguageHighlighter>, screen_row: int) -> Option<
    (Seq<u8>, Seq<Annotation>),
> {
    let line_idx = s.scroll.row + screen_row;
    if line_idx < s.lines.len() {
        let line = s.lines[line_idx];
        let left = s.scroll.col as int;
        let right = capped(left + s.size.width);
        if left >= right {
            Some((Seq::empty(), Seq::empty()))
        } else {
            Some(
                window(
                    line,
                    line_annotations_of(
                        line,
                        line_highlights(h, s.lines, line_idx),
                        s.search_query(),
                        if s.location.line_idx == line_idx && s.search_query() is Some {
                            Some(s.location.grapheme_idx)
                        } else {
                            None
                        },
                        selection_on(s.selection, line, line_idx),
                    ),
                    left,
                    right,
                ),
            )
        }
    } else {
        None
    }
}

/// What row `screen_row` of the window shows when it is drawn: the welcome
/// screen over an empty document, with the welcome message a third of the
/// way down and a tilde on every other row, else the document.
pub open spec fn drawn_row(s: ViewState, h: Option<LanguageHighlighter>, screen_row: int) -> Option<
    (Seq<u8>, Seq<Annotation>),
> {
    if s.lines.len() == 0 {
        Some(
            (
                encode_utf8(
                    if screen_row == s.size.height / 3 {
                        welcome(s.size.width as int)
                    } else {
                        seq!['~']
                    },
                ),
                Seq::empty(),
            ),
        )
    } else {
        shown_row(s, h, screen_row)
    }
}

/// The state of the highlighter in front of a line is the same whatever
/// stands in that line and below.
pub proof fn lemma_state_before_looks_up(
    h: LanguageHighlighter,
    a: Seq<Seq<u8>>,
    b: Seq<Seq<u8>>,
    i: int,
)
    requires
        0 <= i <= a.len(),
        i <= b.len(),
        forall|k: int| 0 <= k < i ==> a[k] == b[k],
    ensures
        state_before(h, a, i) == state_before(h, b, i),
    decreases i,
{
    if i > 0 {
        lemma_state_before_looks_up(h, a, b, i - 1);
    }
}

/// A row of the window shows the same whatever stands in the lines below it:
/// two documents that agree down to the line of the row, seen through the
/// same window with the same caret, selection and search, show the same in
/// that row. So an edit further down leaves the rows above as they were.
pub proof fn lemma_rows_above_an_edit(a: ViewState, b: ViewState, h: Option<LanguageHighlighter>, row: int)
    requires
        0 <= row,
        a.scroll == b.scroll,
        a.size == b.size,
        a.location == b.location,
        a.selection == b.selection,
        a.search == b.search,
        a.scroll.row + row < a.lines.len(),
        a.scroll.row + row < b.lines.len(),
        forall|k: int| 0 <= k <= a.scroll.row + row ==> a.lines[k] == b.lines[k],
    ensures
        shown_row(a, h, row) == shown_row(b, h, row),
{
    if h is Some {
        lemma_state_before_looks_up(h->0, a.lines, b.lines, a.scroll.row + row);
    }
}

/// `row` shows `shown`.
pub open spec fn row_shows(row: ScreenRow, shown: Option<(Seq<u8>, Seq<Annotation>)>) -> bool {
    match row {
        ScreenRow::Text(text) => shown == Some((text.text(), text.annotations())),
        ScreenRow::Empty => shown is None,
    }
}

/// Every entry of `cache` that is of version `version` holds what the
/// highlighter `h` finds on its line of `lines`, and none is of a later
/// version.
pub open spec fn cache_valid(
    cache: Map<usize, CacheEntry>,
    version: u64,
    h: Option<LanguageHighlighter>,
    lines: Seq<Seq<u8>>,
) -> bool {
    forall|idx: usize| #[trigger]
        cache.contains_key(idx) ==> cache[idx].version <= version && (cache[idx].version == version
            ==> h is Some && idx < lines.len() && (cache[idx].annotations@, cache[idx].state)
            == h->0.highlighted(decode_utf8(lines[idx as int]), state_before(h->0, lines, idx as int))
            && annotations_within(cache[idx].annotations@, lines[idx as int].len() as int))
}

/// The text that a selection with the ends `ordered` holds of the first `n`
/// of `lines`: the selected bytes of each line that has any, with a line
/// feed between one line and the next.
pub open spec fn copied(ordered: Selection, lines: Seq<Seq<u8>>, n: int) -> Seq<u8>
    decreases n,
{
    if n <= 0 || n > lines.len() {
        Seq::empty()
    } else {
        let before = copied(ordered, lines, n - 1);
        match selected_bytes(ordered, lines[n - 1], n - 1) {
            Some((from, to)) => (if selected_ranges(ordered, lines, n - 1).len() > 0 {
                before + encode_utf8(seq!['\n'])
            } else {
                before
            }) + lines[n - 1].subrange(from, to),
            None => before,
        }
    }
}

/// The welcome message for a window of `width` columns: a tilde, then the
/// name and version of the editor in the middle of the row, cut to the
/// width of the window.
pub open spec fn welcome(width: int) -> Seq<char> {
    let message = NAME@ + " -- version "@ + VERSION@;
    let padding = minus(width, message.len() as int) / 2;
    let whole = seq!['~'] + Seq::new(minus(padding, 1) as nat, |i: int| ' ') + message;
    if whole.len() > width {
        whole.subrange(0, width)
    } else {
        whole
    }
}

/// The view of a document.
pub struct View {
    buffer: Buffer,
    needs_redraw: bool,
    size: Size,
    text_location: Location,
    scroll_offset: Position,
    search_info: Option<SearchInfo>,
    highlighter_registry: HighlighterRegistry,
    highlight_cache: HashMap<usize, CacheEntry>,
    cache_version: u64,
    selection: Option<Selection>,
}

impl View {
    /// What the view knows, as plain values.
    pub closed spec fn state(&self) -> ViewState {
        ViewState {
            lines: self.buffer@,
            modified: self.buffer.modified,
            location: self.text_location,
            scroll: self.scroll_offset,
            size: self.size,
            selection: self.selection,
            search: match self.search_info {
                Some(info) => Some(
                    SearchState {
                        prev_location: info.prev_location,
                        prev_scroll_offset: info.prev_scroll_offset,
                        query: match info.query {
                            Some(line) => Some(line@),
                            None => None,
                        },
                    },
                ),
                None => None,
            },
            needs_redraw: self.needs_redraw,
            cache_version: self.cache_version,
        }
    }

    /// What is known of the file of the document.
    pub closed spec fn file_info(&self) -> FileInfo {
        self.buffer.file_info
    }

    /// The highlighters that the view has.
    pub closed spec fn registry(&self) -> HighlighterRegistry {
        self.highlighter_registry
    }

    /// The highlighter for the document: the one that the extension of its
    /// file leads to.
    pub open spec fn highlighter(&self) -> Option<LanguageHighlighter> {
        match self.file_info().extension() {
            Some(ext) => self.registry().highlighter_for(ext),
            None => None,
        }
    }

    /// Nothing that is kept of earlier highlighting is of a later version
    /// than the document.
    pub closed spec fn cache_bounded(&self) -> bool {
        forall|idx: usize| #[trigger]
            self.highlight_cache@.contains_key(idx) ==> self.highlight_cache@[idx].version
                <= self.cache_version
    }

    /// The lines and the query of the search are well formed, and so are the
    /// registry and the versions of what is kept of earlier highlighting.
    pub closed spec fn wf(&self) -> bool {
        &&& self.cache_bounded()
        &&& self.buffer.wf()
        &&& self.highlighter_registry.wf()
        &&& match self.search_info {
            Some(info) => match info.query {
                Some(line) => line.wf(),
                None => true,
            },
            None => true,
        }
    }

    /// What is kept of earlier highlighting holds of the document as it is.
    pub closed spec fn cache_ok(&self) -> bool {
        cache_valid(self.highlight_cache@, self.cache_version, self.highlighter(), self.buffer@)
    }

    /// The view of an empty document in a window of size 0, with the
    /// built-in highlighters.
    pub fn new() -> (r: Self)
        ensures
            r.wf(),
            r.cache_ok(),
            r.state().lines == Seq::<Seq<u8>>::empty(),
            !r.state().modified,
            r.state().location == Location::origin(),
            r.state().scroll == (Position { col: 0, row: 0 }),
            r.state().size == (Size { height: 0, width: 0 }),
            r.state().selection is None,
            r.state().search is None,
            !r.state().needs_redraw,
            r.file_info().path() is None,
    {
        View {
            buffer: Buffer::new(),
            needs_redraw: false,
            size: Size::default(),
            text_location: Location::default(),
            scroll_offset: Position::default(),
            search_info: None,
            highlighter_registry: HighlighterRegistry::new(),
            highlight_cache: HashMap::new(),
            cache_version: 0,
            selection: None,
        }
    }

    /// Adds a highlighter for the files with the extensions `extensions`.
    /// What was highlighted so far is out of date.
    pub fn register_highlighter(&mut self, highlighter: LanguageHighlighter, extensions: Vec<String>)
        requires
            old(self).wf(),
        ensures
            final(self).wf(),
            final(self).cache_ok(),
            final(self).state() == old(self).state().edited(),
            final(self).file_info() == old(self).file_info(),
    {
        self.highlighter_registry.register(highlighter, extensions);
        self.mark_edited();
    }

    fn mark_edited(&mut self)
        requires
            old(self).cache_bounded(),
        ensures
            final(self).cache_ok(),
            final(self).cache_bounded(),
            final(self).state() == old(self).state().edited(),
            final(self).buffer == old(self).buffer,
            final(self).highlighter_registry == old(self).highlighter_registry,
            final(self).search_info == old(self).search_info,
    {
        broadcast use group_hash_axioms;

        if self.cache_version == u64::MAX {
            self.highlight_cache.clear();
            self.cache_version = 0;
        } else {
            self.cache_version += 1;
        }
        self.needs_redraw = true;
    }

    /// Where the caret stands in the document.
    pub fn text_location(&self) -> (r: Location)
        ensures
            r == self.state().location,
    {
        self.text_location
    }

    /// The cell of the document that lies in the top left corner of the
    /// window.
    pub fn scroll_offset(&self) -> (r: Position)
        ensures
            r == self.state().scroll,
    {
        self.scroll_offset
    }

    /// The size of the window.
    pub fn size(&self) -> (r: Size)
        ensures
            r == self.state().size,
    {
        self.size
    }

    /// The selection, if there is one.
    pub fn selection(&self) -> (r: Option<Selection>)
        ensures
            r == self.state().selection,
    {
        self.selection
    }

    /// Whether a search is going on.
    pub fn is_searching(&self) -> (r: bool)
        ensures
            r == self.state().search is Some,
    {
        self.search_info.is_some()
    }

    /// Whether the document was changed since it was read or written.
    pub fn is_modified(&self) -> (r: bool)
        ensures
            r == self.state().modified,
    {
        self.buffer.modified
    }

    /// The number of lines of the document.
    pub fn line_count(&self) -> (r: usize)
        ensures
            r == self.state().lines.len(),
    {
        self.buffer.height()
    }

    /// The text of line `line_idx` of the document, if there is such a line.
    pub fn line_text(&self, line_idx: usize) -> (r: Option<String>)
        ensures
            r is Some <==> line_idx < self.state().lines.len(),
            r is Some ==> encode_utf8(r->0@) == self.state().lines[line_idx as int],
    {
        if line_idx < self.buffer.lines.len() {
            Some(self.buffer.lines[line_idx].to_string())
        } else {
            None
        }
    }

    /// The version of the document for the highlighter: it changes with
    /// every edit.
    pub fn cache_version(&self) -> (r: u64)
        ensures
            r == self.state().cache_version,
    {
        self.cache_version
    }

    /// What is known of the file of the document.
    pub fn get_file_info(&self) -> (r: &FileInfo)
        ensures
            *r == self.file_info(),
    {
        &self.buffer.file_info
    }

    /// What the status bar shows of the document.
    pub fn get_status(&self) -> (r: DocumentStatus)
        requires
            self.wf(),
        ensures
            r.total_lines == self.state().lines.len(),
            r.current_line_idx == self.state().location.line_idx,
            r.is_modified == self.state().modified,
            r.file_name@ == self.file_info().name(),
            r.language_name is Some <==> self.highlighter() is Some,
            r.language_name is Some ==> r.language_name->0@ == self.highlighter()->0.name(),
    {
        let language_name = match self.current_highlighter() {
            Some(h) => Some(h.language_name().to_owned()),
            None => None,
        };
        DocumentStatus {
            total_lines: self.buffer.height(),
            current_line_idx: self.text_location.line_idx,
            file_name: self.buffer.file_info.to_string(),
            is_modified: self.buffer.modified,
            language_name,
        }
    }

    fn current_highlighter(&self) -> (r: Option<&LanguageHighlighter>)
        requires
            self.wf(),
        ensures
            r is Some <==> self.highlighter() is Some,
            r is Some ==> *r->0 == self.highlighter()->0,
    {
        match self.buffer.file_info.get_extension() {
            Some(ext) => self.highlighter_registry.get_highlighter(Some(ext)),
            None => None,
        }
    }

    /// The rows of the welcome screen: the welcome message a third of the
    /// way down, a tilde on every other row.
    pub fn render_welcome_screen(&self) -> (rows: Vec<String>)
        ensures
            rows.len() == self.state().size.height,
            forall|row: int|
                0 <= row < rows.len() ==> (#[trigger] rows[row])@ == if row == self.state().size.height
                    / 3 {
                    welcome(self.state().size.width as int)
                } else {
                    seq!['~']
                },
    {
        let height = self.size.height;
        let vertical_center = height / 3;
        let mut rows: Vec<String> = Vec::new();
        let mut row: usize = 0;
        while row < height
            invariant
                row <= height,
                height == self.size.height,
                vertical_center == height / 3,
                rows.len() == row,
                forall|k: int|
                    0 <= k < row ==> (#[trigger] rows[k])@ == if k == vertical_center {
                        welcome(self.size.width as int)
                    } else {
                        seq!['~']
                    },
            decreases height - row,
        {
            if row == vertical_center {
                rows.push(Self::draw_welcome_message(self.size.width));
            } else {
                rows.push(Self::draw_empty_row());
            }
            row += 1;
        }
        rows
    }

    /// The welcome message for a window of `width` columns.
    pub fn draw_welcome_message(width: usize) -> (r: String)
        ensures
            r@ == welcome(width as int),
    {
        let mut message = NAME.to_owned();
        message.append(" -- version ");
        message.append(VERSION);
        let message_chars = chars_vec(message.as_str());
        let len = message_chars.len();
        let padding = width.saturating_sub(len) / 2;
        let spaces = padding.saturating_sub(1);
        let mut whole: Vec<char> = Vec::new();
        whole.push('~');
        let mut i: usize = 0;
        while i < spaces
            invariant
                i <= spaces,
                whole@ == seq!['~'] + Seq::new(i as nat, |k: int| ' '),
            decreases spaces - i,
        {
            whole.push(' ');
            i += 1;
            assert(whole@ =~= seq!['~'] + Seq::new(i as nat, |k: int| ' '));
        }
        let mut j: usize = 0;
        while j < message_chars.len()
            invariant
                j <= message_chars.len(),
                whole@ == seq!['~'] + Seq::new(spaces as nat, |k: int| ' ') + message_chars@.take(j as int),
            decreases message_chars.len() - j,
        {
            whole.push(message_chars[j]);
            j += 1;
            assert(whole@ =~= seq!['~'] + Seq::new(spaces as nat, |k: int| ' ') + message_chars@.take(
                j as int,
            ));
        }
        assert(message_chars@.take(message_chars.len() as int) =~= message_chars@);
        let mut r = String::new();
        let mut k: usize = 0;
        let shown = if whole.len() > width {
            width
        } else {
            whole.len()
        };
        while k < shown
            invariant
                k <= shown <= whole.len(),
                r@ == whole@.subrange(0, k as int),
            decreases shown - k,
        {
            push_char(&mut r, whole[k]);
            k += 1;
            assert(r@ =~= whole@.subrange(0, k as int));
        }
        proof {
            if whole.len() <= width {
                assert(whole@.subrange(0, whole.len() as int) =~= whole@);
            }
        }
        r
    }

    /// The mark of a row below the document.
    pub fn draw_empty_row() -> (r: String)
        ensures
            r@ == seq!['~'],
    {
        let mut r = String::new();
        push_char(&mut r, '~');
        assert(r@ =~= seq!['~']);
        r
    }

    /// The rows of the window over the document. The highlighter goes down
    /// the document from its top, or takes up what it found before where the
    /// document has not changed since, so that every row is highlighted as
    /// if the whole document above it had just been read.
    pub fn render_buffer(&mut self) -> (rows: Vec<ScreenRow>)
        requires
            old(self).wf(),
            old(self).cache_ok(),
        ensures
            final(self).wf(),
            final(self).cache_ok(),
            final(self).state() == old(self).state(),
            final(self).file_info() == old(self).file_info(),
            final(self).registry() == old(self).registry(),
            rows.len() == old(self).state().size.height,
            forall|row: int|
                0 <= row < rows.len() ==> row_shows(
                    #[trigger] rows[row],
                    shown_row(old(self).state(), old(self).highlighter(), row),
                ),
    {
        let height = self.size.height;
        let top = self.scroll_offset.row;
        let mut state = self.state_above(top);
        let mut rows: Vec<ScreenRow> = Vec::new();
        let mut screen_row: usize = 0;
        while screen_row < height
            invariant
                self.wf(),
                self.cache_ok(),
                self.state() == old(self).state(),
                self.file_info() == old(self).file_info(),
                self.registry() == old(self).registry(),
                height == self.state().size.height,
                top == self.state().scroll.row,
                screen_row <= height,
                rows.len() == screen_row,
                top + screen_row <= self.state().lines.len() && self.highlighter() is Some ==> state
                    == state_before(self.highlighter()->0, self.state().lines, top + screen_row),
                forall|row: int|
                    0 <= row < screen_row ==> row_shows(
                        #[trigger] rows[row],
                        shown_row(old(self).state(), old(self).highlighter(), row),
                    ),
            decreases height - screen_row,
        {
            if top < self.buffer.height() && screen_row < self.buffer.height() - top {
                let (row, after) = self.render_row(top + screen_row, state);
                state = after;
                rows.push(row);
            } else {
                rows.push(ScreenRow::Empty);
            }
            screen_row += 1;
        }
        rows
    }

    fn state_above(&mut self, top: usize) -> (state: HighlightState)
        requires
            old(self).wf(),
            old(self).cache_ok(),
        ensures
            final(self).wf(),
            final(self).cache_ok(),
            final(self).state() == old(self).state(),
            final(self).file_info() == old(self).file_info(),
            final(self).registry() == old(self).registry(),
            top <= old(self).state().lines.len() && old(self).highlighter() is Some ==> state
                == state_before(old(self).highlighter()->0, old(self).state().lines, top as int),
    {
        let mut state = HighlightState::default();
        let highlighter = match self.buffer.file_info.get_extension() {
            Some(ext) => self.highlighter_registry.get_highlighter(Some(ext)),
            None => None,
        };
        let ghost lines = self.buffer@;
        match highlighter {
            Some(hl) => {
                let mut line_idx: usize = 0;
                while line_idx < top && line_idx < self.buffer.lines.len()
                    invariant
                        self.wf(),
                        self.state() == old(self).state(),
                        self.file_info() == old(self).file_info(),
                        self.registry() == old(self).registry(),
                        self.buffer == old(self).buffer,
                        self.highlighter_registry == old(self).highlighter_registry,
                        self.cache_version == old(self).cache_version,
                        lines == self.buffer@,
                        self.highlighter() == Some(*hl),
                        line_idx <= top,
                        line_idx <= self.buffer.lines.len(),
                        state == state_before(*hl, lines, line_idx as int),
                        cache_valid(self.highlight_cache@, self.cache_version, Some(*hl), lines),
                    decreases self.buffer.lines.len() - line_idx,
                {
                    let (_, after) = Self::highlights_of(
                        hl,
                        &self.buffer.lines[line_idx],
                        &mut self.highlight_cache,
                        self.cache_version,
                        line_idx,
                        state,
                        Ghost(lines),
                    );
                    state = after;
                    line_idx += 1;
                }
            },
            None => {},
        }
        state
    }

    fn render_row(&mut self, line_idx: usize, state: HighlightState) -> (r: (ScreenRow, HighlightState))
        requires
            old(self).wf(),
            old(self).cache_ok(),
            old(self).state().scroll.row <= line_idx < old(self).state().lines.len(),
            old(self).highlighter() is Some ==> state == state_before(
                old(self).highlighter()->0,
                old(self).state().lines,
                line_idx as int,
            ),
        ensures
            final(self).wf(),
            final(self).cache_ok(),
            final(self).state() == old(self).state(),
            final(self).file_info() == old(self).file_info(),
            final(self).registry() == old(self).registry(),
            row_shows(
                r.0,
                shown_row(old(self).state(), old(self).highlighter(), line_idx - old(self).state().scroll.row),
            ),
            old(self).highlighter() is Some ==> r.1 == state_before(
                old(self).highlighter()->0,
                old(self).state().lines,
                line_idx + 1,
            ),
    {
        let left = self.scroll_offset.col;
        let right = left.saturating_add(self.size.width);
        let highlighter = match self.buffer.file_info.get_extension() {
            Some(ext) => self.highlighter_registry.get_highlighter(Some(ext)),
            None => None,
        };
        let ghost lines = self.buffer@;
        let query: Option<&str> = match &self.search_info {
            Some(info) => match &info.query {
                Some(line) => Some(line.as_str()),
                None => None,
            },
            None => None,
        };
        let line = &self.buffer.lines[line_idx];
        let selection_range = match self.selection {
            Some(selection) => selection.byte_range_for_line(line, line_idx),
            None => None,
        };
        let selected_match = if self.text_location.line_idx == line_idx && query.is_some() {
            Some(self.text_location.grapheme_idx)
        } else {
            None
        };
        match highlighter {
            Some(hl) => {
                let (annotations, after) = Self::highlights_of(
                    hl,
                    line,
                    &mut self.highlight_cache,
                    self.cache_version,
                    line_idx,
                    state,
                    Ghost(lines),
                );
                let (shown, _) = line.get_annotated_visible_substr(
                    left..right,
                    query,
                    selected_match,
                    highlighter,
                    after,
                    Some(annotations.as_slice()),
                    selection_range,
                );
                (ScreenRow::Text(shown), after)
            },
            None => {
                let (shown, _) = line.get_annotated_visible_substr(
                    left..right,
                    query,
                    selected_match,
                    highlighter,
                    state,
                    None,
                    selection_range,
                );
                (ScreenRow::Text(shown), state)
            },
        }
    }

    fn highlights_of(
        hl: &LanguageHighlighter,
        line: &Line,
        cache: &mut HashMap<usize, CacheEntry>,
        version: u64,
        line_idx: usize,
        state: HighlightState,
        Ghost(lines): Ghost<Seq<Seq<u8>>>,
    ) -> (r: (Vec<HighlightAnnotation>, HighlightState))
        requires
            line.wf(),
            line_idx < lines.len(),
            line@ == lines[line_idx as int],
            state == state_before(*hl, lines, line_idx as int),
            cache_valid(old(cache)@, version, Some(*hl), lines),
        ensures
            cache_valid(final(cache)@, version, Some(*hl), lines),
            (r.0@, r.1) == hl.highlighted(decode_utf8(lines[line_idx as int]), state),
            r.1 == state_before(*hl, lines, line_idx + 1),
            annotations_within(r.0@, lines[line_idx as int].len() as int),
    {
        broadcast use group_hash_axioms;
        broadcast use group_utf8_lib;

        match cache.get(&line_idx) {
            Some(entry) => {
                if entry.version == version {
                    return (Self::copy_annotations(&entry.annotations), entry.state);
                }
            },
            None => {},
        }
        let (annotations, after) = hl.highlight_line(line.as_str(), line_idx, state);
        let kept = Self::copy_annotations(&annotations);
        cache.insert(line_idx, CacheEntry { annotations: kept, state: after, version });
        (annotations, after)
    }

    fn copy_annotations(annotations: &Vec<HighlightAnnotation>) -> (r: Vec<HighlightAnnotation>)
        ensures
            r@ == annotations@,
    {
        let mut r: Vec<HighlightAnnotation> = Vec::new();
        let mut i: usize = 0;
        while i < annotations.len()
            invariant
                i <= annotations.len(),
                r@ == annotations@.take(i as int),
            decreases annotations.len() - i,
        {
            r.push(annotations[i]);
            assert(r@ =~= annotations@.take(i + 1));
            i += 1;
        }
        assert(annotations@.take(annotations.len() as int) =~= annotations@);
        r
    }

    /// The cell of the window at which the caret stands.
    pub fn caret_position(&self) -> (r: Position)
        requires
            self.wf(),
        ensures
            r == self.state().caret_position(),
    {
        self.text_location_to_position().saturating_sub(self.scroll_offset)
    }

    /// The cell of the window at which the caret stands.
    pub fn get_position(&self) -> (r: Position)
        requires
            self.wf(),
        ensures
            r == self.state().caret_position(),
    {
        self.caret_position()
    }

    fn text_location_to_position(&self) -> (r: Position)
        requires
            self.wf(),
        ensures
            r == self.state().text_location_to_position(),
    {
        let row = self.text_location.line_idx;
        let col = if row < self.buffer.lines.len() {
            self.buffer.lines[row].width_until(self.text_location.grapheme_idx)
        } else {
            0
        };
        Position { col, row }
    }

    fn line_len(&self, line_idx: usize) -> (r: usize)
        requires
            self.wf(),
        ensures
            r == self.state().line_len(line_idx as int),
    {
        if line_idx < self.buffer.lines.len() {
            self.buffer.lines[line_idx].grapheme_count()
        } else {
            0
        }
    }

    /// Moves the caret or the window as `move_cmd` says. See
    /// `ViewState::handle_move_command`.
    pub fn handle_move_command(&mut self, move_cmd: Move)
        requires
            old(self).wf(),
        ensures
            final(self).wf(),
            old(self).cache_ok() ==> final(self).cache_ok(),
            final(self).state() == old(self).state().handle_move_command(move_cmd),
            final(self).file_info() == old(self).file_info(),
            final(self).registry() == old(self).registry(),
    {
        let height = self.size.height;
        match move_cmd.direction {
            MoveDirection::ScrollUp => {
                self.scroll_only_up();
                return;
            },
            MoveDirection::ScrollDown => {
                self.scroll_only_down();
                return;
            },
            _ => {},
        }
        if move_cmd.is_selection {
            if self.selection.is_none() {
                self.start_selection();
            }
        } else {
            self.clear_selection();
        }
        match move_cmd.direction {
            MoveDirection::Up => self.move_up(1),
            MoveDirection::Down => self.move_down(1),
            MoveDirection::Left => self.move_left(),
            MoveDirection::Right => self.move_right(),
            MoveDirection::PageUp => self.move_up(height.saturating_sub(1)),
            MoveDirection::PageDown => self.move_down(height.saturating_sub(1)),
            MoveDirection::WordLeft => self.move_to_prev_word_start(),
            MoveDirection::WordRight => self.move_to_next_word_start(),
            MoveDirection::LineStart => self.move_to_start_of_line(),
            MoveDirection::LineEnd => self.move_to_end_of_line(),
            MoveDirection::ScrollUp | MoveDirection::ScrollDown => {},
        }
        if move_cmd.is_selection {
            self.extend_selection();
        }
        self.scroll_text_location_into_view();
    }

    fn move_up(&mut self, step: usize)
        requires
            old(self).wf(),
        ensures
            final(self).wf(),
            old(self).cache_ok() ==> final(self).cache_ok(),
            final(self).state() == old(self).state().move_up(step as int),
            final(self).file_info() == old(self).file_info(),
            final(self).registry() == old(self).registry(),
    {
        self.text_location.line_idx = self.text_location.line_idx.saturating_sub(step);
        self.snap_to_valid_grapheme();
    }

    fn move_down(&mut self, step: usize)
        requires
            old(self).wf(),
        ensures
            final(self).wf(),
            old(self).cache_ok() ==> final(self).cache_ok(),
            final(self).state() == old(self).state().move_down(step as int),
            final(self).file_info() == old(self).file_info(),
            final(self).registry() == old(self).registry(),
    {
        self.text_location.line_idx = self.text_location.line_idx.saturating_add(step);
        self.snap_to_valid_grapheme();
        self.snap_to_valid_line();
    }

    fn move_right(&mut self)
        requires
            old(self).wf(),
        ensures
            final(self).wf(),
            old(self).cache_ok() ==> final(self).cache_ok(),
            final(self).state() == old(self).state().move_right(),
            final(self).file_info() == old(self).file_info(),
            final(self).registry() == old(self).registry(),
    {
        let line_width = self.line_len(self.text_location.line_idx);
        if self.text_location.grapheme_idx < line_width {
            self.text_location.grapheme_idx += 1;
        } else {
            self.move_to_start_of_line();
            self.move_down(1);
        }
    }

    fn move_left(&mut self)
        requires
            old(self).wf(),
        ensures
            final(self).wf(),
            old(self).cache_ok() ==> final(self).cache_ok(),
            final(self).state() == old(self).state().move_left(),
            final(self).file_info() == old(self).file_info(),
            final(self).registry() == old(self).registry(),
    {
        if self.text_location.grapheme_idx > 0 {
            self.text_location.grapheme_idx -= 1;
        } else if self.text_location.line_idx > 0 {
            self.move_up(1);
            self.move_to_end_of_line();
        }
    }

    fn move_to_start_of_line(&mut self)
        requires
            old(self).wf(),
        ensures
            final(self).wf(),
            old(self).cache_ok() ==> final(self).cache_ok(),
            final(self).state() == old(self).state().move_to_start_of_line(),
            final(self).file_info() == old(self).file_info(),
            final(self).registry() == old(self).registry(),
    {
        self.text_location.grapheme_idx = 0;
    }

    fn move_to_end_of_line(&mut self)
        requires
            old(self).wf(),
        ensures
            final(self).wf(),
            old(self).cache_ok() ==> final(self).cache_ok(),
            final(self).state() == old(self).state().move_to_end_of_line(),
            final(self).file_info() == old(self).file_info(),
            final(self).registry() == old(self).registry(),
    {
        self.text_location.grapheme_idx = self.line_len(self.text_location.line_idx);
    }

    fn move_to_prev_word_start(&mut self)
        requires
            old(self).wf(),
        ensures
            final(self).wf(),
            old(self).cache_ok() ==> final(self).cache_ok(),
            final(self).state() == old(self).state().move_to_prev_word_start(),
            final(self).file_info() == old(self).file_info(),
            final(self).registry() == old(self).registry(),
    {
        let line_idx = self.text_location.line_idx;
        let grapheme_idx = self.text_location.grapheme_idx;
        if line_idx < self.buffer.lines.len() {
            match self.buffer.lines[line_idx].prev_word_start(grapheme_idx) {
                Some(idx) => {
                    self.text_location.grapheme_idx = idx;
                    return;
                },
                None => {},
            }
        }
        if self.text_location.line_idx > 0 {
            self.move_up(1);
            self.move_to_end_of_line();
            let row = self.text_location.line_idx;
            if row < self.buffer.lines.len() {
                let end = self.text_location.grapheme_idx;
                self.text_location.grapheme_idx = match self.buffer.lines[row].prev_word_start(end) {
                    Some(idx) => idx,
                    None => 0,
                };
            }
        }
    }

    fn move_to_next_word_start(&mut self)
        requires
            old(self).wf(),
        ensures
            final(self).wf(),
            old(self).cache_ok() ==> final(self).cache_ok(),
            final(self).state() == old(self).state().move_to_next_word_start(),
            final(self).file_info() == old(self).file_info(),
            final(self).registry() == old(self).registry(),
    {
        let line_idx = self.text_location.line_idx;
        let grapheme_idx = self.text_location.grapheme_idx;
        if line_idx < self.buffer.lines.len() {
            match self.buffer.lines[line_idx].next_word_end(grapheme_idx) {
                Some(idx) => {
                    self.text_location.grapheme_idx = idx;
                    return;
                },
                None => {},
            }
        }
        if self.text_location.line_idx < self.buffer.height().saturating_sub(1) {
            self.move_down(1);
            self.move_to_start_of_line();
            let row = self.text_location.line_idx;
            if row < self.buffer.lines.len() {
                self.text_location.grapheme_idx = match self.buffer.lines[row].next_word_end(0) {
                    Some(idx) => idx,
                    None => 0,
                };
            }
        }
    }

    fn snap_to_valid_grapheme(&mut self)
        requires
            old(self).wf(),
        ensures
            final(self).wf(),
            old(self).cache_ok() ==> final(self).cache_ok(),
            final(self).state() == old(self).state().snap_to_valid_grapheme(),
            final(self).file_info() == old(self).file_info(),
            final(self).registry() == old(self).registry(),
    {
        let len = self.line_len(self.text_location.line_idx);
        if self.text_location.grapheme_idx > len {
            self.text_location.grapheme_idx = len;
        }
    }

    fn snap_to_valid_line(&mut self)
        requires
            old(self).wf(),
        ensures
            final(self).wf(),
            old(self).cache_ok() ==> final(self).cache_ok(),
            final(self).state() == old(self).state().snap_to_valid_line(),
            final(self).file_info() == old(self).file_info(),
            final(self).registry() == old(self).registry(),
    {
        let height = self.buffer.height();
        if self.text_location.line_idx > height {
            self.text_location.line_idx = height;
        }
    }

    fn scroll_vertically(&mut self, to: usize)
        requires
            old(self).wf(),
        ensures
            final(self).wf(),
            old(self).cache_ok() ==> final(self).cache_ok(),
            final(self).state() == old(self).state().scroll_vertically(to as int),
            final(self).file_info() == old(self).file_info(),
            final(self).registry() == old(self).registry(),
    {
        let height = self.size.height;
        if to < self.scroll_offset.row {
            self.scroll_offset.row = to;
            self.needs_redraw = true;
        } else if to >= self.scroll_offset.row.saturating_add(height) {
            self.scroll_offset.row = to.saturating_sub(height).saturating_add(1);
            self.needs_redraw = true;
        }
    }

    fn scroll_horizontally(&mut self, to: usize)
        requires
            old(self).wf(),
        ensures
            final(self).wf(),
            old(self).cache_ok() ==> final(self).cache_ok(),
            final(self).state() == old(self).state().scroll_horizontally(to as int),
            final(self).file_info() == old(self).file_info(),
            final(self).registry() == old(self).registry(),
    {
        let width = self.size.width;
        if to < self.scroll_offset.col {
            self.scroll_offset.col = to;
            self.needs_redraw = true;
        } else if to >= self.scroll_offset.col.saturating_add(width) {
            self.scroll_offset.col = to.saturating_sub(width).saturating_add(1);
            self.needs_redraw = true;
        }
    }

    fn scroll_text_location_into_view(&mut self)
        requires
            old(self).wf(),
        ensures
            final(self).wf(),
            old(self).cache_ok() ==> final(self).cache_ok(),
            final(self).state() == old(self).state().scroll_text_location_into_view(),
            final(self).file_info() == old(self).file_info(),
            final(self).registry() == old(self).registry(),
    {
        let position = self.text_location_to_position();
        self.scroll_vertically(position.row);
        self.scroll_horizontally(position.col);
    }

    fn scroll_only_up(&mut self)
        requires
            old(self).wf(),
        ensures
            final(self).wf(),
            old(self).cache_ok() ==> final(self).cache_ok(),
            final(self).state() == old(self).state().scroll_only_up(),
            final(self).file_info() == old(self).file_info(),
            final(self).registry() == old(self).registry(),
    {
        if self.scroll_offset.row > 0 {
            self.scroll_offset.row -= 1;
            self.needs_redraw = true;
        }
    }

    fn scroll_only_down(&mut self)
        requires
            old(self).wf(),
        ensures
            final(self).wf(),
            old(self).cache_ok() ==> final(self).cache_ok(),
            final(self).state() == old(self).state().scroll_only_down(),
            final(self).file_info() == old(self).file_info(),
            final(self).registry() == old(self).registry(),
    {
        let height = self.size.height;
        let max_row = self.buffer.height().saturating_sub(height);
        if self.scroll_offset.row < max_row {
            self.scroll_offset.row += 1;
            self.needs_redraw = true;
        }
    }

    fn center_text_location(&mut self)
        requires
            old(self).wf(),
        ensures
            final(self).wf(),
            old(self).cache_ok() ==> final(self).cache_ok(),
            final(self).state() == old(self).state().center_text_location(),
            final(self).file_info() == old(self).file_info(),
            final(self).registry() == old(self).registry(),
    {
        let position = self.text_location_to_position();
        let vertical_mid = self.size.height / 2 + self.size.height % 2;
        let horizontal_mid = self.size.width / 2 + self.size.width % 2;
        self.scroll_offset.row = position.row.saturating_sub(vertical_mid);
        self.scroll_offset.col = position.col.saturating_sub(horizontal_mid);
        self.needs_redraw = true;
    }

    fn start_selection(&mut self)
        requires
            old(self).wf(),
        ensures
            final(self).wf(),
            old(self).cache_ok() ==> final(self).cache_ok(),
            final(self).state() == old(self).state().start_selection(),
            final(self).file_info() == old(self).file_info(),
            final(self).registry() == old(self).registry(),
    {
        self.selection = Some(Selection::new(self.text_location, self.text_location));
        self.needs_redraw = true;
    }

    fn extend_selection(&mut self)
        requires
            old(self).wf(),
        ensures
            final(self).wf(),
            old(self).cache_ok() ==> final(self).cache_ok(),
            final(self).state() == old(self).state().extend_selection(),
            final(self).file_info() == old(self).file_info(),
            final(self).registry() == old(self).registry(),
    {
        match self.selection {
            Some(selection) => {
                self.selection = Some(Selection { start: selection.start, end: self.text_location });
                self.needs_redraw = true;
            },
            None => {
                self.start_selection();
            },
        }
    }

    /// Drops the selection, if there is one.
    pub fn clear_selection(&mut self)
        requires
            old(self).wf(),
        ensures
            final(self).wf(),
            old(self).cache_ok() ==> final(self).cache_ok(),
            final(self).state() == old(self).state().clear_selection(),
            final(self).file_info() == old(self).file_info(),
            final(self).registry() == old(self).registry(),
    {
        if self.selection.is_some() {
            self.selection = None;
            self.needs_redraw = true;
        }
    }

    /// The selected bytes of `line`, which is line `line_idx` of the
    /// document.
    pub fn selection_byte_range_for_line(sel: Selection, line: &Line, line_idx: usize) -> (r: Option<
        Range<usize>,
    >)
        requires
            line.wf(),
        ensures
            r == selection_on(Some(sel), line@, line_idx as int),
    {
        sel.byte_range_for_line(line, line_idx)
    }

    fn selection_end(&self, normalized: Selection) -> (r: Location)
        requires
            self.wf(),
            self.state().lines.len() > 0,
        ensures
            r == self.state().selection_end(normalized),
    {
        if normalized.end.line_idx < self.buffer.height() {
            normalized.end
        } else {
            let last = self.buffer.height() - 1;
            Location { line_idx: last, grapheme_idx: self.line_len(last) }
        }
    }

    fn delete_selection(&mut self) -> (deleted: bool)
        requires
            old(self).wf(),
        ensures
            final(self).wf(),
            old(self).cache_ok() ==> final(self).cache_ok(),
            deleted == old(self).state().has_selected_text(),
            final(self).state() == old(self).state().delete_selection(),
            final(self).file_info() == old(self).file_info(),
            final(self).registry() == old(self).registry(),
    {
        let selection = match self.selection {
            Some(selection) => selection,
            None => {
                return false;
            },
        };
        if self.buffer.height() == 0 {
            return false;
        }
        let normalized = selection.normalize();
        let end = self.selection_end(normalized);
        let start = normalized.start;
        if start.line_idx > end.line_idx {
            return false;
        }
        if start.line_idx == end.line_idx {
            if start.grapheme_idx >= end.grapheme_idx {
                return false;
            }
            let line = &self.buffer.lines[start.line_idx];
            if line.grapheme_to_byte_idx(start.grapheme_idx) >= line.grapheme_to_byte_idx(end.grapheme_idx) {
                return false;
            }
        }
        self.buffer.delete_range(start, end);
        self.text_location = start;
        self.selection = None;
        self.mark_edited();
        true
    }

    /// The selected text, if any is selected: the selected bytes of each
    /// line that has any, with a line feed between one line and the next.
    pub fn selection_to_string(&self, selection: &Selection) -> (r: Option<String>)
        requires
            self.wf(),
        ensures
            r is Some <==> selected_ranges(
                selection.ordered(),
                self.state().lines,
                self.state().lines.len() as int,
            ).len() > 0,
            r is Some ==> encode_utf8(r->0@) == copied(
                selection.ordered(),
                self.state().lines,
                self.state().lines.len() as int,
            ),
    {
        let mut result = String::new();
        let mut found = false;
        let mut line_idx: usize = 0;
        let ghost ordered = selection.ordered();
        let ghost lines = self.buffer@;
        while line_idx < self.buffer.lines.len()
            invariant
                self.wf(),
                lines == self.buffer@,
                ordered == selection.ordered(),
                line_idx <= self.buffer.lines.len(),
                found == (selected_ranges(ordered, lines, line_idx as int).len() > 0),
                encode_utf8(result@) == copied(ordered, lines, line_idx as int),
            decreases self.buffer.lines.len() - line_idx,
        {
            let line = &self.buffer.lines[line_idx];
            match selection.byte_range_for_line(line, line_idx) {
                Some(range) => {
                    let ghost before = result@;
                    if found {
                        push_char(&mut result, '\n');
                    }
                    proof {
                        assert(result@ =~= if found {
                            before + seq!['\n']
                        } else {
                            before
                        });
                        lemma_encode_concat(before, seq!['\n']);
                    }
                    let ghost middle = result@;
                    let piece = substr(line.as_str(), range.start, range.end);
                    result.append(piece);
                    proof {
                        lemma_encode_concat(middle, piece@);
                    }
                    found = true;
                },
                None => {},
            }
            line_idx += 1;
        }
        if found {
            Some(result)
        } else {
            None
        }
    }

    /// The selected text, for the clipboard.
    pub fn copy_selection(&self) -> (r: Option<String>)
        requires
            self.wf(),
        ensures
            r is Some <==> self.state().selection is Some && selected_ranges(
                self.state().selection->0.ordered(),
                self.state().lines,
                self.state().lines.len() as int,
            ).len() > 0,
            r is Some ==> encode_utf8(r->0@) == copied(
                self.state().selection->0.ordered(),
                self.state().lines,
                self.state().lines.len() as int,
            ),
    {
        match self.selection {
            Some(selection) => self.selection_to_string(&selection),
            None => None,
        }
    }

    /// Deletes the selected text and returns it, for the clipboard.
    pub fn cut_selection(&mut self) -> (r: Option<String>)
        requires
            old(self).wf(),
        ensures
            final(self).wf(),
            old(self).cache_ok() ==> final(self).cache_ok(),
            final(self).state() == old(self).state().delete_selection(),
            r is Some <==> old(self).state().selection is Some && selected_ranges(
                old(self).state().selection->0.ordered(),
                old(self).state().lines,
                old(self).state().lines.len() as int,
            ).len() > 0,
            r is Some ==> encode_utf8(r->0@) == copied(
                old(self).state().selection->0.ordered(),
                old(self).state().lines,
                old(self).state().lines.len() as int,
            ),
            final(self).file_info() == old(self).file_info(),
            final(self).registry() == old(self).registry(),
    {
        let text = self.copy_selection();
        let _ = self.delete_selection();
        text
    }

    /// Types `text` at the caret, in place of the selected text if there is
    /// any. Line endings of every kind count as one line break. An empty
    /// text changes nothing.
    pub fn paste_text(&mut self, text: &str)
        requires
            old(self).wf(),
        ensures
            final(self).wf(),
            old(self).cache_ok() ==> final(self).cache_ok(),
            final(self).state() == if text@.len() == 0 {
                old(self).state()
            } else {
                old(self).state().delete_selection().typed(
                    normalized(text@),
                    normalized(text@).len() as int,
                )
            },
            final(self).file_info() == old(self).file_info(),
            final(self).registry() == old(self).registry(),
    {
        if text.is_empty() {
            return;
        }
        let chars = Buffer::normalize_newlines(&chars_vec(text));
        let _ = self.delete_selection();
        let ghost start = self.state();
        let mut i: usize = 0;
        while i < chars.len()
            invariant
                i <= chars.len(),
                self.wf(),
                old(self).cache_ok() ==> self.cache_ok(),
                self.state() == start.typed(chars@, i as int),
                self.file_info() == old(self).file_info(),
                self.registry() == old(self).registry(),
            decreases chars.len() - i,
        {
            self.type_char(chars[i]);
            i += 1;
        }
    }

    fn type_char(&mut self, c: char)
        requires
            old(self).wf(),
        ensures
            final(self).wf(),
            old(self).cache_ok() ==> final(self).cache_ok(),
            final(self).state() == old(self).state().type_char(c),
            final(self).file_info() == old(self).file_info(),
            final(self).registry() == old(self).registry(),
    {
        reveal(ViewState::type_char);
        if c == '\n' {
            self.insert_newline();
        } else {
            self.insert_char(c);
        }
    }

    /// Carries out an edit command. What is to happen with the clipboard is
    /// left to the caller: a copy or a cut hands back the text to store, and
    /// a paste asks the caller to fetch the text and to call `paste_text`.
    /// Undo and redo change nothing here; the history is kept by the caller.
    pub fn handle_edit_command(&mut self, command: Edit) -> (r: ClipboardRequest)
        requires
            old(self).wf(),
        ensures
            final(self).wf(),
            old(self).cache_ok() ==> final(self).cache_ok(),
            final(self).state() == old(self).state().handle_edit_command(command),
            r is Fetch <==> command == Edit::Paste,
            r is Store <==> (command == Edit::Copy || command == Edit::Cut) && old(self).state().selection is Some && selected_ranges(
                old(self).state().selection->0.ordered(),
                old(self).state().lines,
                old(self).state().lines.len() as int,
            ).len() > 0,
            r is Store ==> encode_utf8(r->Store_0@) == copied(
                old(self).state().selection->0.ordered(),
                old(self).state().lines,
                old(self).state().lines.len() as int,
            ),
            final(self).file_info() == old(self).file_info(),
            final(self).registry() == old(self).registry(),
    {
        match command {
            Edit::Insert(character) => {
                self.insert_char(character);
                ClipboardRequest::Nothing
            },
            Edit::InsertNewline => {
                self.insert_newline();
                ClipboardRequest::Nothing
            },
            Edit::Backspace => {
                self.backspace();
                ClipboardRequest::Nothing
            },
            Edit::Delete => {
                self.delete();
                ClipboardRequest::Nothing
            },
            Edit::Copy => match self.copy_selection() {
                Some(text) => ClipboardRequest::Store(text),
                None => ClipboardRequest::Nothing,
            },
            Edit::Cut => match self.cut_selection() {
                Some(text) => ClipboardRequest::Store(text),
                None => ClipboardRequest::Nothing,
            },
            Edit::Paste => ClipboardRequest::Fetch,
            Edit::SelectAll => {
                self.select_all();
                ClipboardRequest::Nothing
            },
            Edit::Undo | Edit::Redo => ClipboardRequest::Nothing,
        }
    }

    fn select_all(&mut self)
        requires
            old(self).wf(),
        ensures
            final(self).wf(),
            old(self).cache_ok() ==> final(self).cache_ok(),
            final(self).state() == old(self).state().select_all(),
            final(self).file_info() == old(self).file_info(),
            final(self).registry() == old(self).registry(),
    {
        let last_line = self.buffer.height().saturating_sub(1);
        self.selection = Some(
            Selection::new(
                Location { line_idx: 0, grapheme_idx: 0 },
                Location { line_idx: last_line, grapheme_idx: self.line_len(last_line) },
            ),
        );
        self.needs_redraw = true;
    }

    fn insert_char(&mut self, character: char)
        requires
            old(self).wf(),
        ensures
            final(self).wf(),
            old(self).cache_ok() ==> final(self).cache_ok(),
            final(self).state() == old(self).state().insert_char(character),
            final(self).file_info() == old(self).file_info(),
            final(self).registry() == old(self).registry(),
    {
        let _ = self.delete_selection();
        let old_len = self.line_len(self.text_location.line_idx);
        self.buffer.insert_char(character, self.text_location);
        self.mark_edited();
        let new_len = self.line_len(self.text_location.line_idx);
        if new_len > old_len {
            self.handle_move_command(Move::right(false));
        }
    }

    fn insert_newline(&mut self)
        requires
            old(self).wf(),
        ensures
            final(self).wf(),
            old(self).cache_ok() ==> final(self).cache_ok(),
            final(self).state() == old(self).state().insert_newline(),
            final(self).file_info() == old(self).file_info(),
            final(self).registry() == old(self).registry(),
    {
        let _ = self.delete_selection();
        self.buffer.insert_newline(self.text_location);
        self.mark_edited();
        self.handle_move_command(Move::right(false));
    }

    /// Shows `buffer` in place of the document. Caret, window, selection and
    /// search stay as they are.
    pub fn load(&mut self, buffer: Buffer)
        requires
            old(self).wf(),
            buffer.wf(),
        ensures
            final(self).wf(),
            final(self).cache_ok(),
            final(self).state() == (ViewState {
                lines: buffer@,
                modified: buffer.modified,
                ..old(self).state()
            }).edited(),
            final(self).file_info() == buffer.file_info,
            final(self).registry() == old(self).registry(),
    {
        self.buffer = buffer;
        self.mark_edited();
    }

    fn backspace(&mut self)
        requires
            old(self).wf(),
        ensures
            final(self).wf(),
            old(self).cache_ok() ==> final(self).cache_ok(),
            final(self).state() == old(self).state().backspace(),
            final(self).file_info() == old(self).file_info(),
            final(self).registry() == old(self).registry(),
    {
        if self.delete_selection() {
            return;
        }
        if self.text_location.line_idx != 0 || self.text_location.grapheme_idx != 0 {
            self.handle_move_command(Move::left(false));
            self.delete();
        }
    }

    fn delete(&mut self)
        requires
            old(self).wf(),
        ensures
            final(self).wf(),
            old(self).cache_ok() ==> final(self).cache_ok(),
            final(self).state() == old(self).state().delete(),
            final(self).file_info() == old(self).file_info(),
            final(self).registry() == old(self).registry(),
    {
        if self.delete_selection() {
            return;
        }
        self.buffer.delete(self.text_location);
        self.mark_edited();
    }

    /// The text of the document as it is written to its file.
    pub fn contents(&self) -> (r: String)
        ensures
            encode_utf8(r@) == file_text(self.state().lines),
    {
        self.buffer.contents()
    }

    /// Records the outcome of writing the document to its file: if it was
    /// written, the document is no longer modified.
    pub fn save(&mut self, written: bool)
        requires
            old(self).wf(),
        ensures
            final(self).wf(),
            old(self).cache_ok() ==> final(self).cache_ok(),
            final(self).state() == (ViewState {
                modified: old(self).state().modified && !written,
                ..old(self).state()
            }),
            final(self).file_info() == old(self).file_info(),
            final(self).registry() == old(self).registry(),
    {
        self.buffer.save(written);
    }

    /// Whether the document belongs to a file.
    pub fn is_file_loaded(&self) -> (r: bool)
        ensures
            r == self.file_info().path() is Some,
    {
        self.buffer.is_file_loaded()
    }

    /// Records the outcome of writing the document to the file `file_info`:
    /// if it was written, the document belongs to that file from now on and
    /// is no longer modified, and it is highlighted anew, as the new file
    /// name asks.
    pub fn save_as(&mut self, file_info: FileInfo, written: bool)
        requires
            old(self).wf(),
        ensures
            final(self).wf(),
            old(self).cache_ok() ==> final(self).cache_ok(),
            written ==> final(self).file_info() == file_info && final(self).state() == (ViewState {
                modified: false,
                ..old(self).state()
            }).edited(),
            !written ==> final(self).file_info() == old(self).file_info() && final(self).state()
                == old(self).state(),
            final(self).registry() == old(self).registry(),
    {
        if written {
            self.buffer.save_as(file_info, true);
            self.mark_edited();
        }
    }

    /// Carries out a command of the simple kind. Quitting and saving are left
    /// to the caller and change nothing here.
    pub fn handle_command(&mut self, command: EditorCommand)
        requires
            old(self).wf(),
        ensures
            final(self).wf(),
            old(self).cache_ok() ==> final(self).cache_ok(),
            final(self).state() == old(self).state().handle_command(command),
            final(self).file_info() == old(self).file_info(),
            final(self).registry() == old(self).registry(),
    {
        match command {
            EditorCommand::Move(direction) => {
                let direction = match direction {
                    MoveCommand::PageUp => MoveDirection::PageUp,
                    MoveCommand::PageDown => MoveDirection::PageDown,
                    MoveCommand::LineStart => MoveDirection::LineStart,
                    MoveCommand::LineEnd => MoveDirection::LineEnd,
                    MoveCommand::Up => MoveDirection::Up,
                    MoveCommand::Left => MoveDirection::Left,
                    MoveCommand::Right => MoveDirection::Right,
                    MoveCommand::Down => MoveDirection::Down,
                };
                self.handle_move_command(Move { direction, is_selection: false });
            },
            EditorCommand::Resize(size) => {
                self.size = size;
                self.scroll_text_location_into_view();
                self.needs_redraw = true;
            },
            EditorCommand::Insert(c) => self.insert_char(c),
            EditorCommand::Backspace => self.backspace(),
            EditorCommand::Delete => self.delete(),
            EditorCommand::Enter => self.insert_newline(),
            EditorCommand::Quit | EditorCommand::Save => {},
        }
    }

    /// Begins a search: remembers where the caret and the window are.
    pub fn enter_search(&mut self)
        requires
            old(self).wf(),
        ensures
            final(self).wf(),
            old(self).cache_ok() ==> final(self).cache_ok(),
            final(self).state() == old(self).state().enter_search(),
            final(self).file_info() == old(self).file_info(),
            final(self).registry() == old(self).registry(),
    {
        self.search_info = Some(
            SearchInfo {
                prev_location: self.text_location,
                prev_scroll_offset: self.scroll_offset,
                query: None,
            },
        );
    }

    /// Ends the search and leaves the caret where the search led.
    pub fn exit_search(&mut self)
        requires
            old(self).wf(),
        ensures
            final(self).wf(),
            old(self).cache_ok() ==> final(self).cache_ok(),
            final(self).state() == old(self).state().exit_search(),
            final(self).file_info() == old(self).file_info(),
            final(self).registry() == old(self).registry(),
    {
        self.search_info = None;
        self.needs_redraw = true;
    }

    /// Gives the search up: caret and window go back to where they were when
    /// it began.
    pub fn dismiss_search(&mut self)
        requires
            old(self).wf(),
        ensures
            final(self).wf(),
            old(self).cache_ok() ==> final(self).cache_ok(),
            final(self).state() == old(self).state().dismiss_search(),
            final(self).file_info() == old(self).file_info(),
            final(self).registry() == old(self).registry(),
    {
        let previous = match &self.search_info {
            Some(info) => Some((info.prev_location, info.prev_scroll_offset)),
            None => None,
        };
        match previous {
            Some((location, scroll_offset)) => {
                self.text_location = location;
                self.scroll_offset = scroll_offset;
                self.scroll_text_location_into_view();
            },
            None => {},
        }
        self.search_info = None;
        self.needs_redraw = true;
    }

    /// Takes `query` as what is searched for, if a search is going on, and
    /// goes to the first hit at or behind the caret.
    pub fn search(&mut self, query: &str)
        requires
            old(self).wf(),
        ensures
            final(self).wf(),
            old(self).cache_ok() ==> final(self).cache_ok(),
            final(self).state() == old(self).state().search(query.spec_bytes()),
            final(self).file_info() == old(self).file_info(),
            final(self).registry() == old(self).registry(),
    {
        let previous = match &self.search_info {
            Some(info) => Some((info.prev_location, info.prev_scroll_offset)),
            None => None,
        };
        match previous {
            Some((prev_location, prev_scroll_offset)) => {
                self.search_info = Some(
                    SearchInfo { prev_location, prev_scroll_offset, query: Some(Line::from(query)) },
                );
            },
            None => {},
        }
        self.search_in_direction(self.text_location, SearchDirection::Forward);
    }

    fn get_search_query(&self) -> (r: Option<&Line>)
        requires
            self.wf(),
        ensures
            r is Some <==> self.state().search_query() is Some,
            r is Some ==> r->0@ == self.state().search_query()->0 && r->0.wf(),
    {
        match &self.search_info {
            Some(info) => match &info.query {
                Some(line) => Some(line),
                None => None,
            },
            None => None,
        }
    }

    fn search_in_direction(&mut self, from: Location, direction: SearchDirection)
        requires
            old(self).wf(),
        ensures
            final(self).wf(),
            old(self).cache_ok() ==> final(self).cache_ok(),
            final(self).state() == old(self).state().search_in_direction(from, direction),
            final(self).file_info() == old(self).file_info(),
            final(self).registry() == old(self).registry(),
    {
        let found = match self.get_search_query() {
            Some(query) => match direction {
                SearchDirection::Forward => self.buffer.search_forward(query.as_str(), from),
                SearchDirection::Backward => self.buffer.search_backward(query.as_str(), from),
            },
            None => None,
        };
        match found {
            Some(location) => {
                self.text_location = location;
                self.center_text_location();
            },
            None => {},
        }
        self.needs_redraw = true;
    }

    /// Goes to the next hit behind the caret.
    pub fn search_next(&mut self)
        requires
            old(self).wf(),
        ensures
            final(self).wf(),
            old(self).cache_ok() ==> final(self).cache_ok(),
            final(self).state() == old(self).state().search_next(),
            final(self).file_info() == old(self).file_info(),
            final(self).registry() == old(self).registry(),
    {
        let step_right: usize = match self.get_search_query() {
            Some(query) => if query.grapheme_count() == 0 {
                0
            } else {
                1
            },
            None => 1,
        };
        let location = Location {
            line_idx: self.text_location.line_idx,
            grapheme_idx: self.text_location.grapheme_idx.saturating_add(step_right),
        };
        self.search_in_direction(location, SearchDirection::Forward);
    }

    /// Goes to the hit before the caret.
    pub fn search_prev(&mut self)
        requires
            old(self).wf(),
        ensures
            final(self).wf(),
            old(self).cache_ok() ==> final(self).cache_ok(),
            final(self).state() == old(self).state().search_prev(),
            final(self).file_info() == old(self).file_info(),
            final(self).registry() == old(self).registry(),
    {
        self.search_in_direction(self.text_location, SearchDirection::Backward);
    }
}

impl UIComponent for View {
    open spec fn ready(&self) -> bool {
        self.wf() && self.cache_ok()
    }

    closed spec fn wants_redraw(&self) -> bool {
        self.needs_redraw
    }

    closed spec fn has_size(&self, size: Size) -> bool {
        self.size == size
    }

    fn mark_redraw(&mut self, value: bool)
        ensures
            final(self).state() == (ViewState { needs_redraw: value, ..old(self).state() }),
            final(self).file_info() == old(self).file_info(),
            final(self).registry() == old(self).registry(),
    {
        self.needs_redraw = value;
    }

    fn needs_redraw(&self) -> (r: bool)
        ensures
            r == self.state().needs_redraw,
    {
        self.needs_redraw
    }

    fn set_size(&mut self, size: Size)
        ensures
            final(self).state() == old(self).state().set_size(size),
            final(self).file_info() == old(self).file_info(),
            final(self).registry() == old(self).registry(),
    {
        self.size = size;
        self.scroll_text_location_into_view();
    }

    /// The rows of the window: the welcome screen over an empty document,
    /// else the lines of the document.
    fn draw(&mut self) -> (rows: Vec<ScreenRow>)
        ensures
            final(self).state() == old(self).state(),
            final(self).file_info() == old(self).file_info(),
            final(self).registry() == old(self).registry(),
            rows.len() == old(self).state().size.height,
            forall|row: int|
                0 <= row < rows.len() ==> row_shows(
                    #[trigger] rows[row],
                    drawn_row(old(self).state(), old(self).highlighter(), row),
                ),
    {
        if self.buffer.is_empty() {
            let plain = self.render_welcome_screen();
            let mut rows: Vec<ScreenRow> = Vec::new();
            let mut i: usize = 0;
            while i < plain.len()
                invariant
                    i <= plain.len(),
                    rows.len() == i,
                    forall|row: int|
                        0 <= row < i ==> row_shows(
                            #[trigger] rows[row],
                            Some((encode_utf8(plain[row]@), Seq::empty())),
                        ),
                decreases plain.len() - i,
            {
                rows.push(ScreenRow::Text(AnnotatedString::from(plain[i].as_str())));
                i += 1;
            }
            rows
        } else {
            self.render_buffer()
        }
    }
}

} // verus!
