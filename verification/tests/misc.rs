use den::annotation_type::AnnotationType;
use den::buffer::Buffer;
use den::colors::{
    default_color_scheme, merge_color_scheme, Attribute, ColorRgb, ColorsConfig,
};
use den::command::{
    Command, Edit, Event, KeyCode, KeyEvent, KeyEventKind, KeyModifiers, Move, MoveDirection, System,
};
use den::document_status::DocumentStatus;
use den::editor::{Editor, EditorAction, ScreenUpdate};
use den::editor_command::{EditorCommand, MoveCommand};
use den::fileinfo::FileInfo;
use den::grapheme_width::GraphemeWidth;
use den::location::Location;
use den::position::Position;
use den::selection::Selection;
use den::size::Size;
use den::text::{floor_char_boundary, str_eq, to_decimal};
use den::undo::{EditOp, UndoHistory};
use den::view::ScreenRow;
use den::view_state::SearchDirection;

fn at(line_idx: usize, grapheme_idx: usize) -> Location {
    Location { line_idx, grapheme_idx }
}

const NONE: KeyModifiers = KeyModifiers { shift: false, control: false, alt: false, other: false };
const SHIFT: KeyModifiers = KeyModifiers { shift: true, control: false, alt: false, other: false };
const CONTROL: KeyModifiers = KeyModifiers { shift: false, control: true, alt: false, other: false };
const CONTROL_SHIFT: KeyModifiers = KeyModifiers { shift: true, control: true, alt: false, other: false };
const ALT: KeyModifiers = KeyModifiers { shift: false, control: false, alt: true, other: false };

fn key(code: KeyCode, modifiers: KeyModifiers) -> KeyEvent {
    KeyEvent { code, modifiers, kind: KeyEventKind::Press }
}

#[test]
fn grapheme_width_adds_its_columns() {
    assert_eq!(GraphemeWidth::Half.saturating_add(3), 4);
    assert_eq!(GraphemeWidth::Full.saturating_add(3), 5);
    assert_eq!(GraphemeWidth::Full.saturating_add(usize::MAX - 1), usize::MAX);
    assert_eq!(GraphemeWidth::Half.saturating_add(usize::MAX), usize::MAX);
    assert_eq!(GraphemeWidth::Half.columns(), 1);
    assert_eq!(GraphemeWidth::Full.columns(), 2);
}

#[test]
fn decimal_digits() {
    assert_eq!(to_decimal(0), "0");
    assert_eq!(to_decimal(7), "7");
    assert_eq!(to_decimal(10), "10");
    assert_eq!(to_decimal(1234567890), "1234567890");
    assert_eq!(to_decimal(usize::MAX), usize::MAX.to_string());
}

#[test]
fn texts_are_compared_by_their_characters() {
    assert!(str_eq("", ""));
    assert!(str_eq("aé", "aé"));
    assert!(!str_eq("aé", "ae"));
    assert!(!str_eq("a", "ab"));
}

#[test]
fn floor_char_boundary_goes_down_to_the_start_of_a_character() {
    let s = "a😀b";
    assert_eq!(floor_char_boundary(s, 0), 0);
    assert_eq!(floor_char_boundary(s, 1), 1);
    assert_eq!(floor_char_boundary(s, 2), 1);
    assert_eq!(floor_char_boundary(s, 4), 1);
    assert_eq!(floor_char_boundary(s, 5), 5);
    assert_eq!(floor_char_boundary(s, 6), 6);
    assert_eq!(floor_char_boundary(s, 60), 6);
}

#[test]
fn the_status_as_text() {
    let status = DocumentStatus {
        total_lines: 12,
        current_line_idx: 2,
        is_modified: true,
        file_name: "a.rs".to_string(),
        language_name: Some("rust".to_string()),
    };
    assert_eq!(status.modified_indicator_to_string(), "(modified)");
    assert_eq!(status.line_count_to_string(), "12 lines");
    assert_eq!(status.position_indicator_to_string(), "3/12");
    let status = DocumentStatus::default();
    assert_eq!(status.modified_indicator_to_string(), "");
    assert_eq!(status.line_count_to_string(), "0 lines");
    assert_eq!(status.position_indicator_to_string(), "1/0");
    let last = DocumentStatus { current_line_idx: usize::MAX, ..DocumentStatus::default() };
    assert_eq!(last.position_indicator_to_string(), format!("{}/0", usize::MAX));
}

#[test]
fn two_states_are_compared_entry_by_entry() {
    let status = DocumentStatus {
        total_lines: 1,
        current_line_idx: 0,
        is_modified: false,
        file_name: "a".to_string(),
        language_name: Some("rust".to_string()),
    };
    let same = DocumentStatus { file_name: "a".to_string(), language_name: Some("rust".to_string()), ..status };
    assert!(status.eq(&same));
    assert!(!status.eq(&DocumentStatus { language_name: None, file_name: "a".to_string(), ..status }));
    assert!(!status.eq(&DocumentStatus {
        language_name: Some("c".to_string()),
        file_name: "a".to_string(),
        ..status
    }));
    assert!(!status.eq(&DocumentStatus {
        total_lines: 2,
        file_name: "a".to_string(),
        language_name: Some("rust".to_string()),
        ..status
    }));
    assert!(!status.eq(&DocumentStatus {
        file_name: "b".to_string(),
        language_name: Some("rust".to_string()),
        ..status
    }));
    assert!(DocumentStatus::default().eq(&DocumentStatus::default()));
}

#[test]
fn a_selection_is_put_in_order() {
    let forward = Selection::new(at(1, 2), at(3, 0));
    assert_eq!(forward.normalize(), forward);
    let backward = Selection::new(at(3, 0), at(1, 2));
    assert_eq!(backward.normalize(), forward);
    let same_line = Selection::new(at(1, 5), at(1, 2));
    assert_eq!(same_line.normalize(), Selection::new(at(1, 2), at(1, 5)));
    assert!(Selection::new(at(1, 1), at(1, 1)).is_empty());
    assert!(!forward.is_empty());
    assert!(Selection::default().is_empty());
}

#[test]
fn a_selection_holds_its_start_but_not_its_end() {
    let selection = Selection::new(at(3, 1), at(1, 2));
    assert!(!selection.contains_location(at(0, 9)));
    assert!(!selection.contains_location(at(1, 1)));
    assert!(selection.contains_location(at(1, 2)));
    assert!(selection.contains_location(at(1, 99)));
    assert!(selection.contains_location(at(2, 0)));
    assert!(selection.contains_location(at(3, 0)));
    assert!(!selection.contains_location(at(3, 1)));
    assert!(!selection.contains_location(at(4, 0)));
}

#[test]
fn the_ranges_of_a_selection() {
    let buffer = Buffer::load(FileInfo::new(), "aé😀z\n\nxyz\nlast");
    let selection = Selection::new(at(2, 2), at(0, 1));
    assert_eq!(selection.get_ranges(&buffer), vec![(0, 1..8), (2, 0..2)]);
    assert_eq!(Selection::new(at(0, 1), at(0, 3)).get_ranges(&buffer), vec![(0, 1..7)]);
    assert_eq!(Selection::new(at(0, 1), at(0, 1)).get_ranges(&buffer), vec![]);
    assert_eq!(Selection::new(at(3, 2), at(9, 9)).get_ranges(&buffer), vec![(3, 2..4)]);
    assert_eq!(Selection::new(at(7, 0), at(9, 9)).get_ranges(&buffer), vec![]);
}

#[test]
fn the_history_is_two_stacks() {
    let mut history = UndoHistory::new();
    assert!(!history.has_undo());
    assert!(!history.has_redo());
    assert!(history.pop_undo().is_none());
    history.push_edit(EditOp::Insert { at: at(0, 0), text: "a".to_string() });
    history.push_edit(EditOp::Delete { at: at(0, 1), text: "b".to_string() });
    assert!(history.has_undo());
    match history.pop_undo() {
        Some(EditOp::Delete { at: place, text }) => {
            assert_eq!(place, at(0, 1));
            assert_eq!(text, "b");
            history.push_redo(EditOp::Delete { at: place, text });
        }
        _ => panic!("the last edit was a deletion"),
    }
    assert!(history.has_redo());
    assert!(history.has_undo());
    assert!(matches!(history.pop_redo(), Some(EditOp::Delete { .. })));
    assert!(history.pop_redo().is_none());
    history.push_redo(EditOp::Insert { at: at(0, 0), text: String::new() });
    history.clear_redo();
    assert!(!history.has_redo());
    assert!(history.has_undo());
    history.push_redo(EditOp::Insert { at: at(0, 0), text: String::new() });
    history.clear_all();
    assert!(!history.has_undo());
    assert!(!history.has_redo());
    assert!(!UndoHistory::default().has_undo());
}

#[test]
fn keys_that_move() {
    assert_eq!(Move::left(true), Move { direction: MoveDirection::Left, is_selection: true });
    assert_eq!(Move::right(false), Move { direction: MoveDirection::Right, is_selection: false });
    let cases = [
        (KeyCode::Up, NONE, MoveDirection::Up, false),
        (KeyCode::Up, SHIFT, MoveDirection::Up, true),
        (KeyCode::Up, CONTROL, MoveDirection::ScrollUp, false),
        (KeyCode::Up, CONTROL_SHIFT, MoveDirection::Up, true),
        (KeyCode::Down, CONTROL, MoveDirection::ScrollDown, false),
        (KeyCode::Down, ALT, MoveDirection::Down, false),
        (KeyCode::Left, NONE, MoveDirection::Left, false),
        (KeyCode::Left, CONTROL, MoveDirection::WordLeft, false),
        (KeyCode::Left, CONTROL_SHIFT, MoveDirection::WordLeft, true),
        (KeyCode::Right, CONTROL, MoveDirection::WordRight, false),
        (KeyCode::Right, CONTROL_SHIFT, MoveDirection::WordRight, true),
        (KeyCode::Right, SHIFT, MoveDirection::Right, true),
        (KeyCode::PageUp, CONTROL, MoveDirection::PageUp, false),
        (KeyCode::PageDown, SHIFT, MoveDirection::PageDown, true),
        (KeyCode::Home, NONE, MoveDirection::LineStart, false),
        (KeyCode::End, SHIFT, MoveDirection::LineEnd, true),
    ];
    for (code, modifiers, direction, is_selection) in cases {
        assert_eq!(Move::try_from(key(code, modifiers)), Ok(Move { direction, is_selection }));
    }
    let error = Move::try_from(key(KeyCode::Char('a'), NONE)).unwrap_err();
    assert_eq!((error.code, error.modifiers), (KeyCode::Char('a'), NONE));
    assert!(Move::try_from(key(KeyCode::Enter, NONE)).is_err());
}

#[test]
fn keys_that_edit() {
    let cases = [
        (KeyCode::Char('c'), CONTROL, Edit::Copy),
        (KeyCode::Char('x'), CONTROL, Edit::Cut),
        (KeyCode::Char('v'), CONTROL, Edit::Paste),
        (KeyCode::Char('a'), CONTROL, Edit::SelectAll),
        (KeyCode::Char('z'), CONTROL, Edit::Undo),
        (KeyCode::Char('z'), CONTROL_SHIFT, Edit::Redo),
        (KeyCode::Char('c'), NONE, Edit::Insert('c')),
        (KeyCode::Char('Z'), SHIFT, Edit::Insert('Z')),
        (KeyCode::Char('é'), NONE, Edit::Insert('é')),
        (KeyCode::Tab, NONE, Edit::Insert('\t')),
        (KeyCode::Enter, NONE, Edit::InsertNewline),
        (KeyCode::Backspace, NONE, Edit::Backspace),
        (KeyCode::Delete, NONE, Edit::Delete),
    ];
    for (code, modifiers, edit) in cases {
        assert_eq!(Edit::try_from(key(code, modifiers)), Ok(edit));
    }
    for (code, modifiers) in [
        (KeyCode::Char('q'), CONTROL),
        (KeyCode::Char('c'), CONTROL_SHIFT),
        (KeyCode::Char('a'), ALT),
        (KeyCode::Tab, SHIFT),
        (KeyCode::Enter, CONTROL),
        (KeyCode::Delete, SHIFT),
        (KeyCode::Up, NONE),
        (KeyCode::Esc, NONE),
    ] {
        assert!(Edit::try_from(key(code, modifiers)).is_err());
    }
}

#[test]
fn keys_for_the_editor() {
    assert_eq!(System::try_from(key(KeyCode::Char('q'), CONTROL)), Ok(System::Quit));
    assert_eq!(System::try_from(key(KeyCode::Char('s'), CONTROL)), Ok(System::Save));
    assert_eq!(System::try_from(key(KeyCode::Esc, NONE)), Ok(System::Dismiss));
    assert!(System::try_from(key(KeyCode::Char('x'), CONTROL)).is_err());
    assert!(System::try_from(key(KeyCode::Esc, CONTROL)).is_err());
    assert!(System::try_from(key(KeyCode::Esc, SHIFT)).is_err());
    assert!(System::try_from(key(KeyCode::Char('q'), NONE)).is_err());
}

#[test]
fn an_edit_goes_before_a_move_and_a_move_before_the_rest() {
    assert_eq!(Command::try_from(Event::Key(key(KeyCode::Char('a'), NONE))), Some(Command::Edit(Edit::Insert('a'))));
    assert_eq!(
        Command::try_from(Event::Key(key(KeyCode::Left, SHIFT))),
        Some(Command::Move(Move { direction: MoveDirection::Left, is_selection: true }))
    );
    assert_eq!(Command::try_from(Event::Key(key(KeyCode::Char('q'), CONTROL))), Some(Command::System(System::Quit)));
    assert_eq!(Command::try_from(Event::Key(key(KeyCode::Esc, NONE))), Some(Command::System(System::Dismiss)));
    assert_eq!(
        Command::try_from(Event::Resize(80, 24)),
        Some(Command::System(System::Resize(Size { height: 24, width: 80 })))
    );
    assert_eq!(Command::try_from(Event::Key(key(KeyCode::Other, NONE))), None);
    assert_eq!(Command::try_from(Event::Key(key(KeyCode::Char('k'), ALT))), None);
    assert_eq!(Command::try_from(Event::Other), None);
}

#[test]
fn simple_commands() {
    let cases = [
        (KeyCode::Char('q'), CONTROL, EditorCommand::Quit),
        (KeyCode::Char('s'), CONTROL, EditorCommand::Save),
        (KeyCode::Char('q'), NONE, EditorCommand::Insert('q')),
        (KeyCode::Char('Q'), SHIFT, EditorCommand::Insert('Q')),
        (KeyCode::Up, CONTROL, EditorCommand::Move(MoveCommand::PageUp)),
        (KeyCode::Down, CONTROL, EditorCommand::Move(MoveCommand::PageDown)),
        (KeyCode::Left, CONTROL, EditorCommand::Move(MoveCommand::LineStart)),
        (KeyCode::Right, CONTROL, EditorCommand::Move(MoveCommand::LineEnd)),
        (KeyCode::Up, NONE, EditorCommand::Move(MoveCommand::Up)),
        (KeyCode::Down, SHIFT, EditorCommand::Move(MoveCommand::Down)),
        (KeyCode::Left, ALT, EditorCommand::Move(MoveCommand::Left)),
        (KeyCode::Right, NONE, EditorCommand::Move(MoveCommand::Right)),
        (KeyCode::Backspace, CONTROL, EditorCommand::Backspace),
        (KeyCode::Delete, NONE, EditorCommand::Delete),
        (KeyCode::Tab, SHIFT, EditorCommand::Insert('\t')),
        (KeyCode::Enter, NONE, EditorCommand::Enter),
    ];
    for (code, modifiers, command) in cases {
        assert_eq!(EditorCommand::try_from(Event::Key(key(code, modifiers))), Some(command));
    }
    assert_eq!(EditorCommand::try_from(Event::Key(key(KeyCode::Char('x'), CONTROL))), None);
    assert_eq!(EditorCommand::try_from(Event::Key(key(KeyCode::Home, NONE))), None);
    assert_eq!(EditorCommand::try_from(Event::Resize(3, 4)), Some(EditorCommand::Resize(Size { height: 4, width: 3 })));
    assert_eq!(EditorCommand::try_from(Event::Other), None);
}

fn first_row(update: ScreenUpdate) -> (Option<String>, Position) {
    match update {
        ScreenUpdate::Frame { rows, caret } => {
            let text = rows.map(|rows| match &rows[0] {
                ScreenRow::Text(text) => text.to_string(),
                ScreenRow::Empty => String::from("~"),
            });
            (text, caret)
        }
        ScreenUpdate::Goodbye => panic!("nobody asked to quit"),
    }
}

#[test]
fn the_editor_takes_events_until_it_is_asked_to_quit() {
    let mut editor = Editor::new(1);
    editor.load(Buffer::load(FileInfo::new(), "ab"));
    assert!(matches!(editor.evaluate_event(Event::Resize(20, 5)), EditorAction::Nothing));
    match editor.refresh_screen() {
        ScreenUpdate::Frame { rows, caret } => {
            // one row of the terminal is kept free below the view
            assert_eq!(rows.unwrap().len(), 4);
            assert_eq!(caret, Position { col: 0, row: 0 });
        }
        ScreenUpdate::Goodbye => panic!("nobody asked to quit"),
    }
    // until the rows are drawn they are handed out again
    assert!(matches!(editor.refresh_screen(), ScreenUpdate::Frame { rows: Some(_), .. }));
    editor.drawn();
    assert!(matches!(editor.refresh_screen(), ScreenUpdate::Frame { rows: None, .. }));
    editor.evaluate_event(Event::Key(key(KeyCode::Right, NONE)));
    // a key that comes up does not count
    editor.evaluate_event(Event::Key(KeyEvent { code: KeyCode::Right, modifiers: NONE, kind: KeyEventKind::Release }));
    editor.evaluate_event(Event::Key(KeyEvent {
        code: KeyCode::Char('q'),
        modifiers: CONTROL,
        kind: KeyEventKind::Repeat,
    }));
    editor.evaluate_event(Event::Other);
    editor.evaluate_event(Event::Key(key(KeyCode::Char('X'), SHIFT)));
    assert!(!editor.should_quit());
    assert_eq!(first_row(editor.refresh_screen()), (Some("aXb".to_string()), Position { col: 2, row: 0 }));
    editor.evaluate_event(Event::Key(key(KeyCode::Char('q'), CONTROL)));
    assert!(editor.should_quit());
    assert!(matches!(editor.refresh_screen(), ScreenUpdate::Goodbye));
}

#[test]
fn the_editor_leaves_files_and_the_clipboard_to_the_caller() {
    let mut editor = Editor::new(0);
    editor.load(Buffer::load(FileInfo::from("/tmp/a.rs", "a.rs", Some("rs")), "ab\ncd"));
    editor.evaluate_event(Event::Resize(20, 5));
    assert_eq!(editor.file_path(), Some("/tmp/a.rs"));
    assert!(matches!(editor.evaluate_event(Event::Key(key(KeyCode::Char('c'), CONTROL))), EditorAction::Nothing));
    editor.evaluate_event(Event::Key(key(KeyCode::Right, SHIFT)));
    match editor.evaluate_event(Event::Key(key(KeyCode::Char('c'), CONTROL))) {
        EditorAction::Store(text) => assert_eq!(text, "a"),
        _ => panic!("a cluster is selected"),
    }
    match editor.evaluate_event(Event::Key(key(KeyCode::Char('x'), CONTROL))) {
        EditorAction::Store(text) => assert_eq!(text, "a"),
        _ => panic!("a cluster is selected"),
    }
    assert_eq!(editor.contents(), "b\ncd\n");
    assert!(matches!(editor.evaluate_event(Event::Key(key(KeyCode::Char('v'), CONTROL))), EditorAction::Fetch));
    editor.paste("x\r\ny");
    assert_eq!(editor.contents(), "x\nyb\ncd\n");
    assert!(editor.status().is_modified);
    assert!(matches!(editor.evaluate_event(Event::Key(key(KeyCode::Char('s'), CONTROL))), EditorAction::Save));
    editor.saved(false);
    assert!(editor.status().is_modified);
    editor.saved(true);
    let status = editor.status();
    assert!(!status.is_modified);
    assert_eq!(status.file_name, "a.rs");
    assert_eq!(status.language_name.as_deref(), Some("rust"));
    assert_eq!(status.total_lines, 3);
    assert_eq!(status.current_line_idx, 1);
}

#[test]
fn escape_gives_up_the_search_or_drops_the_selection() {
    let mut editor = Editor::new(0);
    editor.load(Buffer::load(FileInfo::new(), "abc"));
    editor.evaluate_event(Event::Resize(20, 5));
    editor.evaluate_event(Event::Key(key(KeyCode::Right, SHIFT)));
    editor.evaluate_event(Event::Key(key(KeyCode::Esc, NONE)));
    // nothing is selected any more, so nothing is cut
    assert!(matches!(editor.evaluate_event(Event::Key(key(KeyCode::Char('x'), CONTROL))), EditorAction::Nothing));
    assert_eq!(editor.contents(), "abc\n");
    editor.drawn();
    assert_eq!(first_row(editor.refresh_screen()), (None, Position { col: 1, row: 0 }));
}

#[test]
fn positions_are_subtracted_without_going_below_zero() {
    let a = Position { col: 5, row: 2 };
    assert_eq!(a.saturating_sub(Position { col: 2, row: 7 }), Position { col: 3, row: 0 });
    assert_eq!(a.saturating_sub(Position { col: 9, row: 1 }), Position { col: 0, row: 1 });
    assert_eq!(Position::default(), Position { col: 0, row: 0 });
    assert_eq!(Size::default(), Size { height: 0, width: 0 });
    assert_eq!(Location::default(), at(0, 0));
    assert_eq!(SearchDirection::default(), SearchDirection::Forward);
}

#[test]
fn colours_of_a_file_are_laid_over_the_built_in_ones() {
    let default = default_color_scheme();
    assert_eq!(default.keyword, ColorRgb { r: 86, g: 156, b: 214 });
    assert_eq!(default.bracket3, ColorRgb { r: 152, g: 195, b: 121 });
    assert_eq!(merge_color_scheme(&default, None), default);
    let red = ColorRgb { r: 255, g: 0, b: 0 };
    let green = ColorRgb { r: 0, g: 255, b: 0 };
    let file = ColorsConfig {
        keyword: Some(red),
        number: None,
        type_identifier: None,
        primitive_type: None,
        string: Some(green),
        comment: None,
        brackets: Some(vec![red, green]),
    };
    let merged = merge_color_scheme(&default, Some(&file));
    assert_eq!(merged.keyword, red);
    assert_eq!(merged.string, green);
    assert_eq!(merged.number, default.number);
    assert_eq!(merged.comment, default.comment);
    assert_eq!(merged.bracket0, red);
    assert_eq!(merged.bracket1, green);
    assert_eq!(merged.bracket2, default.bracket2);
    assert_eq!(merged.bracket3, default.bracket3);
    assert_eq!(merged.match_bg, default.match_bg);
    let many = ColorsConfig { brackets: Some(vec![red; 9]), keyword: None, string: None, ..file };
    let merged = merge_color_scheme(&default, Some(&many));
    assert_eq!((merged.bracket0, merged.bracket3), (red, red));
}

#[test]
fn every_kind_of_annotation_has_its_colours() {
    let scheme = default_color_scheme();
    assert_eq!(
        Attribute::from(AnnotationType::Match, &scheme),
        Attribute { foreground: Some(scheme.match_fg), background: Some(scheme.match_bg) }
    );
    assert_eq!(
        Attribute::from(AnnotationType::SelectedMatch, &scheme),
        Attribute { foreground: Some(scheme.selected_match_fg), background: Some(scheme.selected_match_bg) }
    );
    assert_eq!(
        Attribute::from(AnnotationType::Selection, &scheme),
        Attribute { foreground: Some(scheme.selection_fg), background: Some(scheme.selection_bg) }
    );
    let plain = [
        (AnnotationType::Keyword, scheme.keyword),
        (AnnotationType::Number, scheme.number),
        (AnnotationType::Type, scheme.type_identifier),
        (AnnotationType::PrimitiveType, scheme.primitive_type),
        (AnnotationType::String, scheme.string),
        (AnnotationType::Comment, scheme.comment),
        (AnnotationType::Bracket0, scheme.bracket0),
        (AnnotationType::Bracket1, scheme.bracket1),
        (AnnotationType::Bracket2, scheme.bracket2),
        (AnnotationType::Bracket3, scheme.bracket3),
    ];
    for (kind, color) in plain {
        assert_eq!(Attribute::from(kind, &scheme), Attribute { foreground: Some(color), background: None });
    }
}

#[test]
fn the_length_of_an_encoding() {
    for c in ['\0', 'a', '\u{7f}', '\u{80}', 'é', '\u{7ff}', '\u{800}', '日', '\u{ffff}', '\u{10000}', '😀', '\u{10ffff}'] {
        assert_eq!(den::text::utf8_len(c), c.len_utf8());
    }
}
