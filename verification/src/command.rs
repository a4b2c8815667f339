//! What the keys mean.
//!
//! A key press is given as plain data: the key and the modifiers held with
//! it. Each kind of command says which key presses it answers to.

use vstd::prelude::*;
use crate::size::Size;

verus! {

/// A key.
#[derive(Copy, Clone, Debug, PartialEq, Eq, Structural)]
pub enum KeyCode {
    Backspace,
    Enter,
    Left,
    Right,
    Up,
    Down,
    Home,
    End,
    PageUp,
    PageDown,
    Tab,
    Delete,
    Esc,
    Char(char),
    Other,
}

/// The modifier keys held with a key. `other` stands for any besides shift,
/// control and alt.
#[derive(Copy, Clone, Debug, PartialEq, Eq, Structural)]
pub struct KeyModifiers {
    pub shift: bool,
    pub control: bool,
    pub alt: bool,
    pub other: bool,
}

impl KeyModifiers {
    /// No modifier.
    pub open spec fn none() -> KeyModifiers {
        KeyModifiers { shift: false, control: false, alt: false, other: false }
    }

    /// Shift alone.
    pub open spec fn only_shift() -> KeyModifiers {
        KeyModifiers { shift: true, control: false, alt: false, other: false }
    }

    /// Control alone.
    pub open spec fn only_control() -> KeyModifiers {
        KeyModifiers { shift: false, control: true, alt: false, other: false }
    }

    /// Control and shift, nothing else.
    pub open spec fn control_shift() -> KeyModifiers {
        KeyModifiers { shift: true, control: true, alt: false, other: false }
    }

    /// Whether no modifier is held.
    pub fn is_none(&self) -> (r: bool)
        ensures
            r == (*self == Self::none()),
    {
        !self.shift && !self.control && !self.alt && !self.other
    }

    /// Whether shift is held and nothing else.
    pub fn is_shift(&self) -> (r: bool)
        ensures
            r == (*self == Self::only_shift()),
    {
        self.shift && !self.control && !self.alt && !self.other
    }

    /// Whether control is held and nothing else.
    pub fn is_control(&self) -> (r: bool)
        ensures
            r == (*self == Self::only_control()),
    {
        !self.shift && self.control && !self.alt && !self.other
    }

    /// Whether control and shift are held and nothing else.
    pub fn is_control_shift(&self) -> (r: bool)
        ensures
            r == (*self == Self::control_shift()),
    {
        self.shift && self.control && !self.alt && !self.other
    }
}

/// Whether a key went down, came up, or repeats.
#[derive(Copy, Clone, Debug, PartialEq, Eq, Structural)]
pub enum KeyEventKind {
    Press,
    Repeat,
    Release,
}

/// A key with the modifiers held with it.
#[derive(Copy, Clone, Debug, PartialEq, Eq, Structural)]
pub struct KeyEvent {
    pub code: KeyCode,
    pub modifiers: KeyModifiers,
    pub kind: KeyEventKind,
}

/// What the terminal reports.
#[derive(Copy, Clone, Debug, PartialEq, Eq, Structural)]
pub enum Event {
    Key(KeyEvent),
    /// The new size: columns, then rows.
    Resize(u16, u16),
    Other,
}

/// The key press is not a command of the kind asked for.
#[derive(Copy, Clone, Debug, PartialEq, Eq, Structural)]
pub struct Unsupported {
    pub code: KeyCode,
    pub modifiers: KeyModifiers,
}

/// Where a move goes.
#[derive(Copy, Clone, Debug, PartialEq, Eq, Structural)]
pub enum MoveDirection {
    PageUp,
    PageDown,
    ScrollUp,
    ScrollDown,
    WordLeft,
    WordRight,
    LineStart,
    LineEnd,
    Up,
    Left,
    Right,
    Down,
}

/// A move of the caret, which extends the selection if `is_selection` is set.
#[derive(Copy, Clone, Debug, PartialEq, Eq, Structural)]
pub struct Move {
    pub direction: MoveDirection,
    pub is_selection: bool,
}

/// The direction that a key with its modifiers stands for. Control with an
/// up or down arrow scrolls; control with a left or right arrow, with or
/// without shift, moves by words.
pub open spec fn direction_for(code: KeyCode, modifiers: KeyModifiers) -> Option<MoveDirection> {
    match code {
        KeyCode::Up => Some(
            if modifiers == KeyModifiers::only_control() {
                MoveDirection::ScrollUp
            } else {
                MoveDirection::Up
            },
        ),
        KeyCode::Down => Some(
            if modifiers == KeyModifiers::only_control() {
                MoveDirection::ScrollDown
            } else {
                MoveDirection::Down
            },
        ),
        KeyCode::PageUp => Some(MoveDirection::PageUp),
        KeyCode::PageDown => Some(MoveDirection::PageDown),
        KeyCode::Left => Some(
            if (modifiers.control && modifiers.shift) || modifiers == KeyModifiers::only_control() {
                MoveDirection::WordLeft
            } else {
                MoveDirection::Left
            },
        ),
        KeyCode::Right => Some(
            if (modifiers.control && modifiers.shift) || modifiers == KeyModifiers::only_control() {
                MoveDirection::WordRight
            } else {
                MoveDirection::Right
            },
        ),
        KeyCode::Home => Some(MoveDirection::LineStart),
        KeyCode::End => Some(MoveDirection::LineEnd),
        _ => None,
    }
}

impl Move {
    /// One cluster to the left.
    pub fn left(is_selection: bool) -> (r: Self)
        ensures
            r == (Move { direction: MoveDirection::Left, is_selection }),
    {
        Self { direction: MoveDirection::Left, is_selection }
    }

    /// One cluster to the right.
    pub fn right(is_selection: bool) -> (r: Self)
        ensures
            r == (Move { direction: MoveDirection::Right, is_selection }),
    {
        Self { direction: MoveDirection::Right, is_selection }
    }

    /// The move that a key press stands for. Shift extends the selection.
    pub fn try_from(event: KeyEvent) -> (r: Result<Self, Unsupported>)
        ensures
            match direction_for(event.code, event.modifiers) {
                Some(direction) => r == Ok::<Move, Unsupported>(
                    Move { direction, is_selection: event.modifiers.shift },
                ),
                None => r == Err::<Move, Unsupported>(
                    Unsupported { code: event.code, modifiers: event.modifiers },
                ),
            },
    {
        let modifiers = event.modifiers;
        let direction = match event.code {
            KeyCode::Up => if modifiers.is_control() {
                MoveDirection::ScrollUp
            } else {
                MoveDirection::Up
            },
            KeyCode::Down => if modifiers.is_control() {
                MoveDirection::ScrollDown
            } else {
                MoveDirection::Down
            },
            KeyCode::PageUp => MoveDirection::PageUp,
            KeyCode::PageDown => MoveDirection::PageDown,
            KeyCode::Left => if (modifiers.control && modifiers.shift) || modifiers.is_control() {
                MoveDirection::WordLeft
            } else {
                MoveDirection::Left
            },
            KeyCode::Right => if (modifiers.control && modifiers.shift) || modifiers.is_control() {
                MoveDirection::WordRight
            } else {
                MoveDirection::Right
            },
            KeyCode::Home => MoveDirection::LineStart,
            KeyCode::End => MoveDirection::LineEnd,
            _ => {
                return Err(Unsupported { code: event.code, modifiers });
            },
        };
        Ok(Self { direction, is_selection: modifiers.shift })
    }
}

/// A change of the text, or of the clipboard.
#[derive(Copy, Clone, Debug, PartialEq, Eq, Structural)]
pub enum Edit {
    Insert(char),
    InsertNewline,
    Backspace,
    Delete,
    Copy,
    Cut,
    Paste,
    SelectAll,
    Undo,
    Redo,
}

/// The edit that a key with its modifiers stands for. Control with `c`, `x`,
/// `v`, `a` or `z` is a clipboard or history command; a character typed alone
/// or with shift is inserted; tab, enter, backspace and delete count without
/// modifiers only.
pub open spec fn edit_for(code: KeyCode, modifiers: KeyModifiers) -> Option<Edit> {
    let plain = modifiers == KeyModifiers::none();
    let control = modifiers == KeyModifiers::only_control();
    match code {
        KeyCode::Char(c) => if control && c == 'c' {
            Some(Edit::Copy)
        } else if control && c == 'x' {
            Some(Edit::Cut)
        } else if control && c == 'v' {
            Some(Edit::Paste)
        } else if control && c == 'a' {
            Some(Edit::SelectAll)
        } else if modifiers == KeyModifiers::control_shift() && c == 'z' {
            Some(Edit::Redo)
        } else if control && c == 'z' {
            Some(Edit::Undo)
        } else if plain || modifiers == KeyModifiers::only_shift() {
            Some(Edit::Insert(c))
        } else {
            None
        },
        KeyCode::Tab => if plain {
            Some(Edit::Insert('\t'))
        } else {
            None
        },
        KeyCode::Enter => if plain {
            Some(Edit::InsertNewline)
        } else {
            None
        },
        KeyCode::Backspace => if plain {
            Some(Edit::Backspace)
        } else {
            None
        },
        KeyCode::Delete => if plain {
            Some(Edit::Delete)
        } else {
            None
        },
        _ => None,
    }
}

impl Edit {
    /// The edit that a key press stands for.
    pub fn try_from(event: KeyEvent) -> (r: Result<Self, Unsupported>)
        ensures
            match edit_for(event.code, event.modifiers) {
                Some(edit) => r == Ok::<Edit, Unsupported>(edit),
                None => r == Err::<Edit, Unsupported>(
                    Unsupported { code: event.code, modifiers: event.modifiers },
                ),
            },
    {
        let modifiers = event.modifiers;
        let plain = modifiers.is_none();
        let control = modifiers.is_control();
        let edit = match event.code {
            KeyCode::Char(c) => if control && c == 'c' {
                Some(Edit::Copy)
            } else if control && c == 'x' {
                Some(Edit::Cut)
            } else if control && c == 'v' {
                Some(Edit::Paste)
            } else if control && c == 'a' {
                Some(Edit::SelectAll)
            } else if modifiers.is_control_shift() && c == 'z' {
                Some(Edit::Redo)
            } else if control && c == 'z' {
                Some(Edit::Undo)
            } else if plain || modifiers.is_shift() {
                Some(Edit::Insert(c))
            } else {
                None
            },
            KeyCode::Tab => if plain {
                Some(Edit::Insert('\t'))
            } else {
                None
            },
            KeyCode::Enter => if plain {
                Some(Edit::InsertNewline)
            } else {
                None
            },
            KeyCode::Backspace => if plain {
                Some(Edit::Backspace)
            } else {
                None
            },
            KeyCode::Delete => if plain {
                Some(Edit::Delete)
            } else {
                None
            },
            _ => None,
        };
        match edit {
            Some(edit) => Ok(edit),
            None => Err(Unsupported { code: event.code, modifiers }),
        }
    }
}

/// A command to the editor as a whole.
#[derive(Copy, Clone, Debug, PartialEq, Eq, Structural)]
pub enum System {
    Save,
    Resize(Size),
    Quit,
    Dismiss,
}

/// The command to the editor that a key with its modifiers stands for:
/// control with `q` quits, control with `s` saves, escape alone dismisses.
pub open spec fn system_for(code: KeyCode, modifiers: KeyModifiers) -> Option<System> {
    if modifiers == KeyModifiers::only_control() {
        if code == KeyCode::Char('q') {
            Some(System::Quit)
        } else if code == KeyCode::Char('s') {
            Some(System::Save)
        } else {
            None
        }
    } else if modifiers == KeyModifiers::none() && code == KeyCode::Esc {
        Some(System::Dismiss)
    } else {
        None
    }
}

impl System {
    /// The command to the editor that a key press stands for.
    pub fn try_from(event: KeyEvent) -> (r: Result<Self, Unsupported>)
        ensures
            match system_for(event.code, event.modifiers) {
                Some(system) => r == Ok::<System, Unsupported>(system),
                None => r == Err::<System, Unsupported>(
                    Unsupported { code: event.code, modifiers: event.modifiers },
                ),
            },
    {
        let unsupported = Unsupported { code: event.code, modifiers: event.modifiers };
        if event.modifiers.is_control() {
            match event.code {
                KeyCode::Char(c) => if c == 'q' {
                    Ok(System::Quit)
                } else if c == 's' {
                    Ok(System::Save)
                } else {
                    Err(unsupported)
                },
                _ => Err(unsupported),
            }
        } else if event.modifiers.is_none() {
            match event.code {
                KeyCode::Esc => Ok(System::Dismiss),
                _ => Err(unsupported),
            }
        } else {
            Err(unsupported)
        }
    }
}

/// A command of any kind.
#[derive(Copy, Clone, Debug, PartialEq, Eq, Structural)]
pub enum Command {
    Move(Move),
    Edit(Edit),
    System(System),
}

/// The command that an event stands for. A key press is an edit if it can be
/// one, else a move, else a command to the editor. A change of size is a
/// command to the editor.
pub open spec fn command_for(event: Event) -> Option<Command> {
    match event {
        Event::Key(key) => match edit_for(key.code, key.modifiers) {
            Some(edit) => Some(Command::Edit(edit)),
            None => match direction_for(key.code, key.modifiers) {
                Some(direction) => Some(
                    Command::Move(Move { direction, is_selection: key.modifiers.shift }),
                ),
                None => match system_for(key.code, key.modifiers) {
                    Some(system) => Some(Command::System(system)),
                    None => None,
                },
            },
        },
        Event::Resize(width, height) => Some(
            Command::System(System::Resize(Size { height: height as usize, width: width as usize })),
        ),
        Event::Other => None,
    }
}

/// The number `n`, as a machine word.
pub fn to_usize(n: u16) -> (r: usize)
    ensures
        r == n,
{
    n as usize
}

impl Command {
    /// The command that an event stands for. `None` for an event that is no
    /// command.
    pub fn try_from(event: Event) -> (r: Option<Self>)
        ensures
            r == command_for(event),
    {
        match event {
            Event::Key(key) => {
                match Edit::try_from(key) {
                    Ok(edit) => {
                        return Some(Command::Edit(edit));
                    },
                    Err(_) => {},
                }
                match Move::try_from(key) {
                    Ok(move_command) => {
                        return Some(Command::Move(move_command));
                    },
                    Err(_) => {},
                }
                match System::try_from(key) {
                    Ok(system) => Some(Command::System(system)),
                    Err(_) => None,
                }
            },
            Event::Resize(width, height) => Some(
                Command::System(System::Resize(Size { height: to_usize(height), width: to_usize(width) })),
            ),
            Event::Other => None,
        }
    }
}

} // verus!
