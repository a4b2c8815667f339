//! The commands of the editor in their simplest form: one key, one command.

use vstd::prelude::*;
use crate::command::{to_usize, Event, KeyCode, KeyModifiers};
use crate::size::Size;

verus! {

/// A move of the caret.
#[derive(Copy, Clone, Debug, PartialEq, Eq, Structural)]
pub enum MoveCommand {
    PageUp,
    PageDown,
    LineStart,
    LineEnd,
    Up,
    Left,
    Right,
    Down,
}

/// A command to the editor.
#[derive(Copy, Clone, Debug, PartialEq, Eq, Structural)]
pub enum EditorCommand {
    Move(MoveCommand),
    Resize(Size),
    Quit,
    Insert(char),
    Backspace,
    Delete,
    Enter,
    Save,
}

/// The command that a key with its modifiers stands for. Control with `q`
/// quits and with `s` saves; control with an arrow moves by a page or to an
/// end of the line; a character typed alone or with shift is inserted.
pub open spec fn key_command(code: KeyCode, modifiers: KeyModifiers) -> Option<EditorCommand> {
    let control = modifiers == KeyModifiers::only_control();
    match code {
        KeyCode::Char(c) => if control && c == 'q' {
            Some(EditorCommand::Quit)
        } else if control && c == 's' {
            Some(EditorCommand::Save)
        } else if modifiers == KeyModifiers::none() || modifiers == KeyModifiers::only_shift() {
            Some(EditorCommand::Insert(c))
        } else {
            None
        },
        KeyCode::Up => Some(
            EditorCommand::Move(
                if control {
                    MoveCommand::PageUp
                } else {
                    MoveCommand::Up
                },
            ),
        ),
        KeyCode::Down => Some(
            EditorCommand::Move(
                if control {
                    MoveCommand::PageDown
                } else {
                    MoveCommand::Down
                },
            ),
        ),
        KeyCode::Left => Some(
            EditorCommand::Move(
                if control {
                    MoveCommand::LineStart
                } else {
                    MoveCommand::Left
                },
            ),
        ),
        KeyCode::Right => Some(
            EditorCommand::Move(
                if control {
                    MoveCommand::LineEnd
                } else {
                    MoveCommand::Right
                },
            ),
        ),
        KeyCode::Backspace => Some(EditorCommand::Backspace),
        KeyCode::Delete => Some(EditorCommand::Delete),
        KeyCode::Tab => Some(EditorCommand::Insert('\t')),
        KeyCode::Enter => Some(EditorCommand::Enter),
        _ => None,
    }
}

/// The command that an event stands for.
pub open spec fn editor_command_for(event: Event) -> Option<EditorCommand> {
    match event {
        Event::Key(key) => key_command(key.code, key.modifiers),
        Event::Resize(width, height) => Some(
            EditorCommand::Resize(Size { height: height as usize, width: width as usize }),
        ),
        Event::Other => None,
    }
}

impl EditorCommand {
    /// The command that an event stands for. `None` for an event that is no
    /// command.
    pub fn try_from(event: Event) -> (r: Option<Self>)
        ensures
            r == editor_command_for(event),
    {
        match event {
            Event::Key(key) => {
                let control = key.modifiers.is_control();
                match key.code {
                    KeyCode::Char(c) => if control && c == 'q' {
                        Some(EditorCommand::Quit)
                    } else if control && c == 's' {
                        Some(EditorCommand::Save)
                    } else if key.modifiers.is_none() || key.modifiers.is_shift() {
                        Some(EditorCommand::Insert(c))
                    } else {
                        None
                    },
                    KeyCode::Up => Some(
                        EditorCommand::Move(
                            if control {
                                MoveCommand::PageUp
                            } else {
                                MoveCommand::Up
                            },
                        ),
                    ),
                    KeyCode::Down => Some(
                        EditorCommand::Move(
                            if control {
                                MoveCommand::PageDown
                            } else {
                                MoveCommand::Down
                            },
                        ),
                    ),
                    KeyCode::Left => Some(
                        EditorCommand::Move(
                            if control {
                                MoveCommand::LineStart
                            } else {
                                MoveCommand::Left
                            },
                        ),
                    ),
                    KeyCode::Right => Some(
                        EditorCommand::Move(
                            if control {
                                MoveCommand::LineEnd
                            } else {
                                MoveCommand::Right
                            },
                        ),
                    ),
                    KeyCode::Backspace => Some(EditorCommand::Backspace),
                    KeyCode::Delete => Some(EditorCommand::Delete),
                    KeyCode::Tab => Some(EditorCommand::Insert('\t')),
                    KeyCode::Enter => Some(EditorCommand::Enter),
                    _ => None,
                }
            },
            Event::Resize(width, height) => Some(
                EditorCommand::Resize(Size { height: to_usize(height), width: to_usize(width) }),
            ),
            Event::Other => None,
        }
    }
}

} // verus!
