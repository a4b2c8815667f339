//! The editor: a view, the wish to quit, and what an event means.
//!
//! The editor decides what an event does to the view and what is left for
//! the caller to do: to read or write a file, the clipboard or the screen.
//! The caller reads the events, hands in each one, and carries out what it
//! is handed back.

use vstd::prelude::*;
use vstd::string::*;
use vstd::utf8::*;
use vstd::view::View as _;
use crate::buffer::{file_text, normalized, Buffer};
use crate::command::{command_for, Command, Edit, Event, KeyEventKind, System};
use crate::document_status::DocumentStatus;
use crate::fileinfo::FileInfo;
use crate::highlight::highlighter::Highlighter;
use crate::highlight::registry::LanguageHighlighter;
use crate::location::Location;
use crate::position::Position;
use crate::selection::selected_ranges;
use crate::size::Size;
use crate::ui_component::UIComponent;
use crate::view::{copied, drawn_row, row_shows, ClipboardRequest, ScreenRow, View};
use crate::view_state::{minus, ViewState};

verus! {

/// What is to be done with the screen.
pub enum ScreenUpdate {
    /// Clear the screen and say goodbye.
    Goodbye,
    /// Put `rows` on the screen, if there are any, and the caret at `caret`.
    Frame { rows: Option<Vec<ScreenRow>>, caret: Position },
}

/// What is left for the caller to do after an event.
pub enum EditorAction {
    /// Nothing.
    Nothing,
    /// Put this text on the clipboard.
    Store(String),
    /// Read the clipboard and hand what it holds to `paste`.
    Fetch,
    /// Write `contents` to the file of the document and hand the outcome to
    /// `saved`.
    Save,
}

/// An event counts if it is a key that went down or a change of size.
pub open spec fn counts(event: Event) -> bool {
    match event {
        Event::Key(key) => key.kind == KeyEventKind::Press,
        Event::Resize(_, _) => true,
        Event::Other => false,
    }
}

/// The command that an event stands for, if it counts and stands for one.
pub open spec fn command_of(event: Event) -> Option<Command> {
    if counts(event) {
        command_for(event)
    } else {
        None
    }
}

/// The size of the view in a terminal of size `size` with `margin` rows kept
/// free below the view.
pub open spec fn view_size(size: Size, margin: usize) -> Size {
    Size { height: minus(size.height as int, margin as int) as usize, width: size.width }
}

/// The state of the view after `command`. Quitting and saving change
/// nothing in the view.
pub open spec fn after_command(s: ViewState, command: Command, margin: usize) -> ViewState {
    match command {
        Command::Move(move_cmd) => s.handle_move_command(move_cmd),
        Command::Edit(edit) => s.handle_edit_command(edit),
        Command::System(System::Resize(size)) => s.set_size(view_size(size, margin)).redraw(),
        Command::System(System::Dismiss) => s.dismiss(),
        Command::System(System::Quit) | Command::System(System::Save) => s,
    }
}

/// Whether `edit` hands text to the clipboard: a copy or a cut does if
/// something is selected.
pub open spec fn stores(s: ViewState, edit: Edit) -> bool {
    (edit == Edit::Copy || edit == Edit::Cut) && s.selection is Some && selected_ranges(
        s.selection->0.ordered(),
        s.lines,
        s.lines.len() as int,
    ).len() > 0
}

/// The editor.
pub struct Editor {
    should_quit: bool,
    view: View,
    margin_bottom: usize,
}

impl Editor {
    /// The editor is asked to quit.
    pub closed spec fn quitting(&self) -> bool {
        self.should_quit
    }

    /// The state of the view of the editor.
    pub closed spec fn state(&self) -> ViewState {
        self.view.state()
    }

    /// The rows of the terminal that are kept free below the view.
    pub closed spec fn margin(&self) -> usize {
        self.margin_bottom
    }

    /// The highlighter for the document.
    pub closed spec fn highlighter(&self) -> Option<LanguageHighlighter> {
        self.view.highlighter()
    }

    /// What is known of the file of the document.
    pub closed spec fn file_info(&self) -> FileInfo {
        self.view.file_info()
    }

    /// The view of the editor is well formed.
    pub closed spec fn wf(&self) -> bool {
        self.view.wf() && self.view.cache_ok()
    }

    /// The editor with an empty document, for a terminal in which
    /// `margin_bottom` rows below the view are kept for other things.
    pub fn new(margin_bottom: usize) -> (r: Self)
        ensures
            r.wf(),
            !r.quitting(),
            r.margin() == margin_bottom,
            r.state().lines == Seq::<Seq<u8>>::empty(),
            r.state().location == Location::origin(),
            r.state().selection is None,
            r.state().search is None,
            r.file_info().path() is None,
    {
        Editor { should_quit: false, view: View::new(), margin_bottom }
    }

    /// Shows `buffer` in place of the document.
    pub fn load(&mut self, buffer: Buffer)
        requires
            old(self).wf(),
            buffer.wf(),
        ensures
            final(self).wf(),
            final(self).quitting() == old(self).quitting(),
            final(self).margin() == old(self).margin(),
            final(self).state() == (ViewState {
                lines: buffer@,
                modified: buffer.modified,
                ..old(self).state()
            }).edited(),
            final(self).file_info() == buffer.file_info,
    {
        self.view.load(buffer);
    }

    /// Adds a highlighter for the files with the extensions `extensions`.
    pub fn register_highlighter(&mut self, highlighter: LanguageHighlighter, extensions: Vec<String>)
        requires
            old(self).wf(),
        ensures
            final(self).wf(),
            final(self).quitting() == old(self).quitting(),
            final(self).margin() == old(self).margin(),
            final(self).state() == old(self).state().edited(),
            final(self).file_info() == old(self).file_info(),
    {
        self.view.register_highlighter(highlighter, extensions);
    }

    /// Whether the editor is asked to quit.
    pub fn should_quit(&self) -> (r: bool)
        ensures
            r == self.quitting(),
    {
        self.should_quit
    }

    /// What the status bar shows of the document.
    pub fn status(&self) -> (r: DocumentStatus)
        requires
            self.wf(),
        ensures
            r.total_lines == self.state().lines.len(),
            r.current_line_idx == self.state().location.line_idx,
            r.is_modified == self.state().modified,
            r.file_name@ == self.file_info().name(),
            r.language_name is Some <==> self.highlighter() is Some,
            r.language_name is Some ==> r.language_name->0@ == self.highlighter()->0.name(),
    {
        self.view.get_status()
    }

    /// The path of the file of the document, if it has one.
    pub fn file_path(&self) -> (r: Option<&str>)
        ensures
            r is Some <==> self.file_info().path() is Some,
            r is Some ==> r->0@ == self.file_info().path()->0,
    {
        self.view.get_file_info().get_path()
    }

    /// The text of the document as it is written to its file.
    pub fn contents(&self) -> (r: String)
        ensures
            encode_utf8(r@) == file_text(self.state().lines),
    {
        self.view.contents()
    }

    /// Takes an event. An event that does not count, or that stands for no
    /// command, changes nothing. The command to quit is remembered; a move
    /// or an edit goes to the view; saving and the clipboard are left to the
    /// caller.
    pub fn evaluate_event(&mut self, event: Event) -> (action: EditorAction)
        requires
            old(self).wf(),
        ensures
            final(self).wf(),
            final(self).margin() == old(self).margin(),
            final(self).file_info() == old(self).file_info(),
            final(self).highlighter() == old(self).highlighter(),
            final(self).quitting() == (old(self).quitting() || command_of(event) == Some(
                Command::System(System::Quit),
            )),
            final(self).state() == match command_of(event) {
                Some(command) => after_command(old(self).state(), command, old(self).margin()),
                None => old(self).state(),
            },
            action is Save <==> command_of(event) == Some(Command::System(System::Save)),
            action is Fetch <==> command_of(event) == Some(Command::Edit(Edit::Paste)),
            action is Store <==> command_of(event) is Some && command_of(event)->0 is Edit && stores(
                old(self).state(),
                command_of(event)->0->Edit_0,
            ),
            action is Store ==> encode_utf8(action->Store_0@) == copied(
                old(self).state().selection->0.ordered(),
                old(self).state().lines,
                old(self).state().lines.len() as int,
            ),
    {
        let should_process = match event {
            Event::Key(key) => match key.kind {
                KeyEventKind::Press => true,
                _ => false,
            },
            Event::Resize(_, _) => true,
            Event::Other => false,
        };
        if !should_process {
            return EditorAction::Nothing;
        }
        match Command::try_from(event) {
            Some(Command::Move(move_cmd)) => {
                self.view.handle_move_command(move_cmd);
                EditorAction::Nothing
            },
            Some(Command::Edit(edit)) => self.run_edit(edit),
            Some(Command::System(system)) => self.run_system(system),
            None => EditorAction::Nothing,
        }
    }

    fn run_edit(&mut self, edit: Edit) -> (action: EditorAction)
        requires
            old(self).wf(),
        ensures
            final(self).wf(),
            final(self).margin() == old(self).margin(),
            final(self).file_info() == old(self).file_info(),
            final(self).highlighter() == old(self).highlighter(),
            final(self).quitting() == old(self).quitting(),
            final(self).state() == old(self).state().handle_edit_command(edit),
            !(action is Save),
            action is Fetch <==> edit == Edit::Paste,
            action is Store <==> stores(old(self).state(), edit),
            action is Store ==> encode_utf8(action->Store_0@) == copied(
                old(self).state().selection->0.ordered(),
                old(self).state().lines,
                old(self).state().lines.len() as int,
            ),
    {
        match self.view.handle_edit_command(edit) {
            ClipboardRequest::Nothing => EditorAction::Nothing,
            ClipboardRequest::Store(text) => EditorAction::Store(text),
            ClipboardRequest::Fetch => EditorAction::Fetch,
        }
    }

    fn run_system(&mut self, system: System) -> (action: EditorAction)
        requires
            old(self).wf(),
        ensures
            final(self).wf(),
            final(self).margin() == old(self).margin(),
            final(self).file_info() == old(self).file_info(),
            final(self).highlighter() == old(self).highlighter(),
            final(self).quitting() == (old(self).quitting() || system == System::Quit),
            final(self).state() == after_command(
                old(self).state(),
                Command::System(system),
                old(self).margin(),
            ),
            action is Save <==> system == System::Save,
            !(action is Fetch),
            !(action is Store),
    {
        match system {
            System::Quit => {
                self.should_quit = true;
                EditorAction::Nothing
            },
            System::Save => EditorAction::Save,
            System::Resize(size) => {
                self.view.set_size(
                    Size { height: size.height.saturating_sub(self.margin_bottom), width: size.width },
                );
                self.view.mark_redraw(true);
                EditorAction::Nothing
            },
            System::Dismiss => {
                if self.view.is_searching() {
                    self.view.dismiss_search();
                } else {
                    self.view.clear_selection();
                }
                EditorAction::Nothing
            },
        }
    }

    /// Types `text` at the caret, as it came from the clipboard or from the
    /// terminal.
    pub fn paste(&mut self, text: &str)
        requires
            old(self).wf(),
        ensures
            final(self).wf(),
            final(self).quitting() == old(self).quitting(),
            final(self).margin() == old(self).margin(),
            final(self).file_info() == old(self).file_info(),
            final(self).state() == if text@.len() == 0 {
                old(self).state()
            } else {
                old(self).state().delete_selection().typed(
                    normalized(text@),
                    normalized(text@).len() as int,
                )
            },
    {
        self.view.paste_text(text);
    }

    /// Records the outcome of writing the document to its file: if it was
    /// written, the document is no longer modified.
    pub fn saved(&mut self, written: bool)
        requires
            old(self).wf(),
        ensures
            final(self).wf(),
            final(self).quitting() == old(self).quitting(),
            final(self).margin() == old(self).margin(),
            final(self).file_info() == old(self).file_info(),
            final(self).state() == (ViewState {
                modified: old(self).state().modified && !written,
                ..old(self).state()
            }),
    {
        self.view.save(written);
    }

    /// Records that the rows handed out by `refresh_screen` are on the
    /// screen: the view is no longer out of date.
    pub fn drawn(&mut self)
        requires
            old(self).wf(),
        ensures
            final(self).wf(),
            final(self).quitting() == old(self).quitting(),
            final(self).margin() == old(self).margin(),
            final(self).file_info() == old(self).file_info(),
            final(self).highlighter() == old(self).highlighter(),
            final(self).state() == (ViewState { needs_redraw: false, ..old(self).state() }),
    {
        self.view.mark_redraw(false);
    }

    /// What is to be done with the screen: to say goodbye if the editor is
    /// asked to quit, else to show the rows of the view, if it is out of
    /// date, with the caret in its place. The view stays out of date until
    /// the caller says that the rows are drawn.
    pub fn refresh_screen(&mut self) -> (r: ScreenUpdate)
        requires
            old(self).wf(),
        ensures
            final(self).wf(),
            final(self).quitting() == old(self).quitting(),
            final(self).margin() == old(self).margin(),
            final(self).file_info() == old(self).file_info(),
            final(self).highlighter() == old(self).highlighter(),
            final(self).state() == old(self).state(),
            old(self).quitting() ==> r is Goodbye,
            !old(self).quitting() ==> r is Frame && r->caret == old(self).state().caret_position() && (
            r->rows is Some <==> old(self).state().needs_redraw),
            r is Frame && r->rows is Some ==> r->rows->0.len() == old(self).state().size.height
                && forall|row: int|
                0 <= row < r->rows->0.len() ==> row_shows(
                    #[trigger] r->rows->0[row],
                    drawn_row(old(self).state(), old(self).highlighter(), row),
                ),
    {
        if self.should_quit {
            return ScreenUpdate::Goodbye;
        }
        let rows = if self.view.needs_redraw() {
            Some(self.view.draw())
        } else {
            None
        };
        let caret = self.view.caret_position();
        ScreenUpdate::Frame { rows, caret }
    }
}

} // verus!
