//! What the view of a document does, stated on plain values.
//!
//! `ViewState` holds what the view knows, without the machinery: the bytes
//! of the lines, the caret, the scroll offset, the size of the window, the
//! selection and the search. Every command is a function from one such state
//! to the next.

use vstd::prelude::*;
use crate::buffer::{char_inserted, deleted_at, deletes_at, found_backward, found_forward};
use crate::buffer::{deletes_range, newline_inserted, range_deleted};
use crate::command::{Edit, Move, MoveDirection};
use crate::editor_command::{EditorCommand, MoveCommand};
use crate::line::{cluster_count, width_upto, word_end_from, word_start_before};
use crate::location::Location;
use crate::position::Position;
use crate::selection::Selection;
use crate::size::Size;
use crate::text::capped;

verus! {

/// A search that is going on: where the caret and the window were when it
/// began, and what is searched for.
pub struct SearchState {
    pub prev_location: Location,
    pub prev_scroll_offset: Position,
    pub query: Option<Seq<u8>>,
}

/// The direction of a search.
#[derive(Copy, Clone, Debug, PartialEq, Eq, Structural)]
pub enum SearchDirection {
    Forward,
    Backward,
}

impl Default for SearchDirection {
    fn default() -> (r: Self)
        ensures
            r == SearchDirection::Forward,
    {
        SearchDirection::Forward
    }
}

/// The state of a view.
pub struct ViewState {
    pub lines: Seq<Seq<u8>>,
    pub modified: bool,
    pub location: Location,
    pub scroll: Position,
    pub size: Size,
    pub selection: Option<Selection>,
    pub search: Option<SearchState>,
    pub needs_redraw: bool,
    pub cache_version: u64,
}

/// The direction of a move of the simple kind.
pub open spec fn plain_direction(direction: MoveCommand) -> MoveDirection {
    match direction {
        MoveCommand::PageUp => MoveDirection::PageUp,
        MoveCommand::PageDown => MoveDirection::PageDown,
        MoveCommand::LineStart => MoveDirection::LineStart,
        MoveCommand::LineEnd => MoveDirection::LineEnd,
        MoveCommand::Up => MoveDirection::Up,
        MoveCommand::Left => MoveDirection::Left,
        MoveCommand::Right => MoveDirection::Right,
        MoveCommand::Down => MoveDirection::Down,
    }
}

/// `a - b`, not below 0.
pub open spec fn minus(a: int, b: int) -> int {
    if a >= b {
        a - b
    } else {
        0
    }
}

/// The version that follows `version`: the next number, 0 behind the last.
pub open spec fn next_version(version: u64) -> u64 {
    if version == u64::MAX {
        0
    } else {
        (version + 1) as u64
    }
}

impl ViewState {
    /// The number of clusters of line `i`; 0 if there is no such line.
    pub open spec fn line_len(self, i: int) -> int {
        if 0 <= i < self.lines.len() {
            cluster_count(self.lines[i]) as int
        } else {
            0
        }
    }

    /// The state with the caret at `location`.
    pub open spec fn at(self, location: Location) -> ViewState {
        ViewState { location, ..self }
    }

    /// The state with the screen marked as out of date.
    pub open spec fn redraw(self) -> ViewState {
        ViewState { needs_redraw: true, ..self }
    }

    /// The state after an edit: the highlights are out of date, and so is the
    /// screen.
    pub open spec fn edited(self) -> ViewState {
        ViewState { cache_version: next_version(self.cache_version), needs_redraw: true, ..self }
    }

    /// The caret taken back to the end of its line if it stands behind it.
    pub open spec fn snap_to_valid_grapheme(self) -> ViewState {
        let len = self.line_len(self.location.line_idx as int);
        self.at(
            Location {
                grapheme_idx: if self.location.grapheme_idx < len {
                    self.location.grapheme_idx
                } else {
                    len as usize
                },
                ..self.location
            },
        )
    }

    /// The caret taken back to the line behind the last if it stands below.
    pub open spec fn snap_to_valid_line(self) -> ViewState {
        self.at(
            Location {
                line_idx: if self.location.line_idx < self.lines.len() {
                    self.location.line_idx
                } else {
                    self.lines.len() as usize
                },
                ..self.location
            },
        )
    }

    /// The caret `step` lines up, not above the first.
    pub open spec fn move_up(self, step: int) -> ViewState {
        self.at(
            Location { line_idx: minus(self.location.line_idx as int, step) as usize, ..self.location },
        ).snap_to_valid_grapheme()
    }

    /// The caret `step` lines down, not below the line behind the last.
    pub open spec fn move_down(self, step: int) -> ViewState {
        self.at(
            Location { line_idx: capped(self.location.line_idx + step) as usize, ..self.location },
        ).snap_to_valid_grapheme().snap_to_valid_line()
    }

    /// The caret at the start of its line.
    pub open spec fn move_to_start_of_line(self) -> ViewState {
        self.at(Location { grapheme_idx: 0, ..self.location })
    }

    /// The caret at the end of its line.
    pub open spec fn move_to_end_of_line(self) -> ViewState {
        self.at(
            Location { grapheme_idx: self.line_len(self.location.line_idx as int) as usize, ..self.location },
        )
    }

    /// The caret one cluster to the right, or at the start of the next line
    /// from the end of a line.
    pub open spec fn move_right(self) -> ViewState {
        if self.location.grapheme_idx < self.line_len(self.location.line_idx as int) {
            self.at(
                Location { grapheme_idx: (self.location.grapheme_idx + 1) as usize, ..self.location },
            )
        } else {
            self.move_to_start_of_line().move_down(1)
        }
    }

    /// The caret one cluster to the left, or at the end of the line above
    /// from the start of a line.
    pub open spec fn move_left(self) -> ViewState {
        if self.location.grapheme_idx > 0 {
            self.at(
                Location { grapheme_idx: (self.location.grapheme_idx - 1) as usize, ..self.location },
            )
        } else if self.location.line_idx > 0 {
            self.move_up(1).move_to_end_of_line()
        } else {
            self
        }
    }

    /// The caret at the start of the word before it: on its line if there is
    /// one, else at the start of the last word of the line above.
    pub open spec fn move_to_prev_word_start(self) -> ViewState {
        let line_idx = self.location.line_idx as int;
        let here = if line_idx < self.lines.len() {
            word_start_before(self.lines[line_idx], self.location.grapheme_idx as int)
        } else {
            None
        };
        if here is Some {
            self.at(Location { grapheme_idx: here->0 as usize, ..self.location })
        } else if self.location.line_idx > 0 {
            let above = self.move_up(1).move_to_end_of_line();
            let row = above.location.line_idx as int;
            if row < self.lines.len() {
                let found = word_start_before(self.lines[row], above.location.grapheme_idx as int);
                above.at(
                    Location {
                        grapheme_idx: if found is Some {
                            found->0 as usize
                        } else {
                            0
                        },
                        ..above.location
                    },
                )
            } else {
                above
            }
        } else {
            self
        }
    }

    /// The caret behind the next word: on its line if there is one, else
    /// behind the first word of the line below.
    pub open spec fn move_to_next_word_start(self) -> ViewState {
        let line_idx = self.location.line_idx as int;
        let here = if line_idx < self.lines.len() {
            word_end_from(self.lines[line_idx], self.location.grapheme_idx as int)
        } else {
            None
        };
        if here is Some {
            self.at(Location { grapheme_idx: here->0 as usize, ..self.location })
        } else if self.location.line_idx < minus(self.lines.len() as int, 1) {
            let below = self.move_down(1).move_to_start_of_line();
            let row = below.location.line_idx as int;
            if row < self.lines.len() {
                let found = word_end_from(self.lines[row], 0);
                below.at(
                    Location {
                        grapheme_idx: if found is Some {
                            found->0 as usize
                        } else {
                            0
                        },
                        ..below.location
                    },
                )
            } else {
                below
            }
        } else {
            self
        }
    }

    /// The cell of the document at which the caret stands: its line, and the
    /// columns that the clusters before it take.
    pub open spec fn text_location_to_position(self) -> Position {
        let row = self.location.line_idx;
        Position {
            row,
            col: if row < self.lines.len() {
                capped(width_upto(self.lines[row as int], self.location.grapheme_idx as int) as int) as usize
            } else {
                0
            },
        }
    }

    /// The cell of the window at which the caret stands.
    pub open spec fn caret_position(self) -> Position {
        self.text_location_to_position().minus(self.scroll)
    }

    /// The window moved up or down, as little as it takes, so that row `to`
    /// of the document lies in it.
    pub open spec fn scroll_vertically(self, to: int) -> ViewState {
        if to < self.scroll.row {
            ViewState { scroll: Position { row: to as usize, ..self.scroll }, ..self }.redraw()
        } else if to >= capped(self.scroll.row + self.size.height) {
            ViewState {
                scroll: Position { row: capped(minus(to, self.size.height as int) + 1) as usize, ..self.scroll },
                ..self
            }.redraw()
        } else {
            self
        }
    }

    /// The window moved left or right, as little as it takes, so that column
    /// `to` of the document lies in it.
    pub open spec fn scroll_horizontally(self, to: int) -> ViewState {
        if to < self.scroll.col {
            ViewState { scroll: Position { col: to as usize, ..self.scroll }, ..self }.redraw()
        } else if to >= capped(self.scroll.col + self.size.width) {
            ViewState {
                scroll: Position { col: capped(minus(to, self.size.width as int) + 1) as usize, ..self.scroll },
                ..self
            }.redraw()
        } else {
            self
        }
    }

    /// The window moved so that the caret lies in it.
    pub open spec fn scroll_text_location_into_view(self) -> ViewState {
        let position = self.text_location_to_position();
        self.scroll_vertically(position.row as int).scroll_horizontally(position.col as int)
    }

    /// The window one row up, if it is not at the top.
    pub open spec fn scroll_only_up(self) -> ViewState {
        if self.scroll.row > 0 {
            ViewState { scroll: Position { row: (self.scroll.row - 1) as usize, ..self.scroll }, ..self }.redraw()
        } else {
            self
        }
    }

    /// The window one row down, if the document goes on below it.
    pub open spec fn scroll_only_down(self) -> ViewState {
        if self.scroll.row < minus(self.lines.len() as int, self.size.height as int) {
            ViewState { scroll: Position { row: (self.scroll.row + 1) as usize, ..self.scroll }, ..self }.redraw()
        } else {
            self
        }
    }

    /// The window with the caret in its middle.
    pub open spec fn center_text_location(self) -> ViewState {
        let position = self.text_location_to_position();
        let vertical_mid = (self.size.height + 1) / 2;
        let horizontal_mid = (self.size.width + 1) / 2;
        ViewState {
            scroll: Position {
                row: minus(position.row as int, vertical_mid) as usize,
                col: minus(position.col as int, horizontal_mid) as usize,
            },
            ..self
        }.redraw()
    }

    /// A selection begun at the caret.
    pub open spec fn start_selection(self) -> ViewState {
        ViewState {
            selection: Some(Selection { start: self.location, end: self.location }),
            ..self
        }.redraw()
    }

    /// The selection drawn out to the caret; begun there if there is none.
    pub open spec fn extend_selection(self) -> ViewState {
        match self.selection {
            Some(selection) => ViewState {
                selection: Some(Selection { end: self.location, ..selection }),
                ..self
            }.redraw(),
            None => self.start_selection(),
        }
    }

    /// The state without a selection.
    pub open spec fn clear_selection(self) -> ViewState {
        if self.selection is Some {
            ViewState { selection: None, ..self }.redraw()
        } else {
            self
        }
    }

    /// The whole document selected.
    pub open spec fn select_all(self) -> ViewState {
        let last_line = minus(self.lines.len() as int, 1);
        ViewState {
            selection: Some(
                Selection {
                    start: Location::origin(),
                    end: Location {
                        line_idx: last_line as usize,
                        grapheme_idx: self.line_len(last_line) as usize,
                    },
                },
            ),
            ..self
        }.redraw()
    }

    /// The caret moved as `direction` says.
    pub open spec fn step(self, direction: MoveDirection) -> ViewState {
        match direction {
            MoveDirection::Up => self.move_up(1),
            MoveDirection::Down => self.move_down(1),
            MoveDirection::Left => self.move_left(),
            MoveDirection::Right => self.move_right(),
            MoveDirection::PageUp => self.move_up(minus(self.size.height as int, 1)),
            MoveDirection::PageDown => self.move_down(minus(self.size.height as int, 1)),
            MoveDirection::WordLeft => self.move_to_prev_word_start(),
            MoveDirection::WordRight => self.move_to_next_word_start(),
            MoveDirection::LineStart => self.move_to_start_of_line(),
            MoveDirection::LineEnd => self.move_to_end_of_line(),
            MoveDirection::ScrollUp | MoveDirection::ScrollDown => self,
        }
    }

    /// The state after a move. Scrolling moves the window and nothing else.
    /// Any other move first begins a selection, if it is to extend one and
    /// there is none, or drops the selection, if it is not; then the caret
    /// moves, the selection follows it, and the window follows the caret.
    pub open spec fn handle_move_command(self, move_cmd: Move) -> ViewState {
        match move_cmd.direction {
            MoveDirection::ScrollUp => self.scroll_only_up(),
            MoveDirection::ScrollDown => self.scroll_only_down(),
            _ => {
                let prepared = if move_cmd.is_selection {
                    if self.selection is None {
                        self.start_selection()
                    } else {
                        self
                    }
                } else {
                    self.clear_selection()
                };
                let stepped = prepared.step(move_cmd.direction);
                let selected = if move_cmd.is_selection {
                    stepped.extend_selection()
                } else {
                    stepped
                };
                selected.scroll_text_location_into_view()
            },
        }
    }

    /// The end of the selection `ordered`, taken back to the end of the
    /// document if it lies below.
    pub open spec fn selection_end(self, ordered: Selection) -> Location {
        if ordered.end.line_idx < self.lines.len() {
            ordered.end
        } else {
            Location {
                line_idx: minus(self.lines.len() as int, 1) as usize,
                grapheme_idx: self.line_len(self.lines.len() - 1) as usize,
            }
        }
    }

    /// Whether there is a selection that holds something of the document: a
    /// cluster or a line break.
    pub open spec fn has_selected_text(self) -> bool {
        self.selection is Some && self.lines.len() > 0 && deletes_range(
            self.lines,
            self.selection->0.ordered().start,
            self.selection_end(self.selection->0.ordered()),
        )
    }

    /// The state after the selected text was deleted: the head of the first
    /// line of the selection is joined to the tail of its last, the caret
    /// stands where the selection began, and there is no selection. Without
    /// selected text nothing changes.
    pub open spec fn delete_selection(self) -> ViewState {
        if self.has_selected_text() {
            let ordered = self.selection->0.ordered();
            ViewState {
                lines: range_deleted(self.lines, ordered.start, self.selection_end(ordered)),
                modified: true,
                location: ordered.start,
                selection: None,
                ..self
            }.edited()
        } else {
            self
        }
    }

    /// The state after `c` was typed: it takes the place of the selected text
    /// if there is any, and the caret moves on if the line has grown by a
    /// cluster.
    pub open spec fn insert_char(self, c: char) -> ViewState {
        let cleared = self.delete_selection();
        let typed = ViewState {
            lines: char_inserted(cleared.lines, c, cleared.location),
            modified: cleared.modified || cleared.location.line_idx <= cleared.lines.len(),
            ..cleared
        }.edited();
        if typed.line_len(typed.location.line_idx as int) > cleared.line_len(
            cleared.location.line_idx as int,
        ) {
            typed.handle_move_command(Move { direction: MoveDirection::Right, is_selection: false })
        } else {
            typed
        }
    }

    /// The state after a line break was typed: it takes the place of the
    /// selected text if there is any, and the caret moves to the new line.
    pub open spec fn insert_newline(self) -> ViewState {
        let cleared = self.delete_selection();
        ViewState {
            lines: newline_inserted(cleared.lines, cleared.location),
            modified: cleared.modified || cleared.location.line_idx <= cleared.lines.len(),
            ..cleared
        }.edited().handle_move_command(Move { direction: MoveDirection::Right, is_selection: false })
    }

    /// The state after the delete key: the selected text goes if there is
    /// any, else what stands at the caret.
    pub open spec fn delete(self) -> ViewState {
        if self.has_selected_text() {
            self.delete_selection()
        } else {
            ViewState {
                lines: deleted_at(self.lines, self.location),
                modified: self.modified || deletes_at(self.lines, self.location),
                ..self
            }.edited()
        }
    }

    /// The state after the backspace key: the selected text goes if there is
    /// any, else the caret moves left and what stands there goes. At the
    /// start of the document nothing happens.
    pub open spec fn backspace(self) -> ViewState {
        if self.has_selected_text() {
            self.delete_selection()
        } else if self.location.line_idx != 0 || self.location.grapheme_idx != 0 {
            self.handle_move_command(Move { direction: MoveDirection::Left, is_selection: false }).delete()
        } else {
            self
        }
    }

    /// The state after `c` was typed: a line break for a line feed, the
    /// character itself for any other.
    #[verifier::opaque]
    pub open spec fn type_char(self, c: char) -> ViewState {
        if c == '\n' {
            self.insert_newline()
        } else {
            self.insert_char(c)
        }
    }

    /// The state after the first `n` of `chars` were typed.
    pub open spec fn typed(self, chars: Seq<char>, n: int) -> ViewState
        decreases n,
    {
        if n <= 0 || n > chars.len() {
            self
        } else {
            self.typed(chars, n - 1).type_char(chars[n - 1])
        }
    }

    /// The state after a search began.
    pub open spec fn enter_search(self) -> ViewState {
        ViewState {
            search: Some(
                SearchState {
                    prev_location: self.location,
                    prev_scroll_offset: self.scroll,
                    query: None,
                },
            ),
            ..self
        }
    }

    /// The state after a search ended where it led.
    pub open spec fn exit_search(self) -> ViewState {
        ViewState { search: None, ..self }.redraw()
    }

    /// The state after a search was given up: caret and window are back
    /// where they were when it began.
    pub open spec fn dismiss_search(self) -> ViewState {
        let back = match self.search {
            Some(search) => ViewState {
                location: search.prev_location,
                scroll: search.prev_scroll_offset,
                ..self
            }.scroll_text_location_into_view(),
            None => self,
        };
        ViewState { search: None, ..back }.redraw()
    }

    /// What is searched for, if a search is going on and has a query.
    pub open spec fn search_query(self) -> Option<Seq<u8>> {
        match self.search {
            Some(search) => search.query,
            None => None,
        }
    }

    /// The state after a search from `from` in `direction`: the caret stands
    /// at the hit, in the middle of the window, if there is one.
    pub open spec fn search_in_direction(self, from: Location, direction: SearchDirection) -> ViewState {
        let found = match self.search_query() {
            Some(query) => if direction == SearchDirection::Forward {
                found_forward(self.lines, query, from)
            } else {
                found_backward(self.lines, query, from)
            },
            None => None,
        };
        match found {
            Some(location) => self.at(location).center_text_location(),
            None => self.redraw(),
        }
    }

    /// The state after the query of the search became `query`: the caret
    /// stands at the first hit at or behind it.
    pub open spec fn search(self, query: Seq<u8>) -> ViewState {
        let asked = match self.search {
            Some(search) => ViewState { search: Some(SearchState { query: Some(query), ..search }), ..self },
            None => self,
        };
        asked.search_in_direction(asked.location, SearchDirection::Forward)
    }

    /// The state after a search for the next hit, which starts one cluster
    /// behind the caret.
    pub open spec fn search_next(self) -> ViewState {
        let step: int = match self.search_query() {
            Some(query) => if cluster_count(query) == 0 {
                0
            } else {
                1
            },
            None => 1,
        };
        self.search_in_direction(
            Location { grapheme_idx: capped(self.location.grapheme_idx + step) as usize, ..self.location },
            SearchDirection::Forward,
        )
    }

    /// The state after a search for the hit before the caret.
    pub open spec fn search_prev(self) -> ViewState {
        self.search_in_direction(self.location, SearchDirection::Backward)
    }

    /// The state after an edit command. Copying, pasting, undoing and redoing
    /// change nothing by themselves: the clipboard and the history are kept
    /// by the caller.
    pub open spec fn handle_edit_command(self, command: Edit) -> ViewState {
        match command {
            Edit::Insert(c) => self.insert_char(c),
            Edit::InsertNewline => self.insert_newline(),
            Edit::Backspace => self.backspace(),
            Edit::Delete => self.delete(),
            Edit::Cut => self.delete_selection(),
            Edit::SelectAll => self.select_all(),
            Edit::Copy | Edit::Paste | Edit::Undo | Edit::Redo => self,
        }
    }

    /// The state after the escape key: a search that is going on is given
    /// up, else the selection is dropped.
    pub open spec fn dismiss(self) -> ViewState {
        if self.search is Some {
            self.dismiss_search()
        } else {
            self.clear_selection()
        }
    }

    /// The state after a command of the simple kind. Quitting and saving
    /// change nothing.
    pub open spec fn handle_command(self, command: EditorCommand) -> ViewState {
        match command {
            EditorCommand::Move(direction) => self.handle_move_command(
                Move { direction: plain_direction(direction), is_selection: false },
            ),
            EditorCommand::Resize(size) => self.set_size(size).redraw(),
            EditorCommand::Insert(c) => self.insert_char(c),
            EditorCommand::Backspace => self.backspace(),
            EditorCommand::Delete => self.delete(),
            EditorCommand::Enter => self.insert_newline(),
            EditorCommand::Quit | EditorCommand::Save => self,
        }
    }

    /// The state after the window got the size `size`.
    pub open spec fn set_size(self, size: Size) -> ViewState {
        ViewState { size, ..self }.scroll_text_location_into_view()
    }
}

} // verus!
