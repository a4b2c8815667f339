use den::annotation_type::AnnotationType;
use den::highlight::highlighter::{HighlightAnnotation, HighlightState};
use den::highlight::registry::LanguageHighlighter;
use den::highlight::rust::RustHighlighter;
use den::line::Line;

fn no_highlighter() -> Option<&'static LanguageHighlighter> {
    None
}

#[test]
fn selection_annotation_applied_for_mid_line_range() {
    let line = Line::from("abcdef");
    let (ann, _) = line.get_annotated_visible_substr(
        0..80,
        None,
        None,
        no_highlighter(),
        HighlightState::default(),
        None,
        Some(2..3),
    );
    let mut found_selection = false;
    for part in ann.parts() {
        if part.annotation_type == Some(AnnotationType::Selection) {
            found_selection = true;
            assert_eq!(part.string, "c");
        }
    }
    assert!(found_selection, "Selection annotation should cover 'c'");
}

#[test]
fn from_keeps_the_text() {
    assert_eq!(Line::from("héllo wörld").to_string(), "héllo wörld");
    assert_eq!(Line::new().to_string(), "");
    assert_eq!(Line::from("abc").as_str(), "abc");
}

#[test]
fn grapheme_count_counts_clusters_not_bytes() {
    assert_eq!(Line::from("").grapheme_count(), 0);
    assert_eq!(Line::from("abc").grapheme_count(), 3);
    // e + combining acute is one cluster of three bytes
    let line = Line::from("e\u{301}x");
    assert_eq!(line.line_length(), 4);
    assert_eq!(line.grapheme_count(), 2);
    // a flag is one cluster of two regional indicators
    assert_eq!(Line::from("🇷🇺🇸🇹").grapheme_count(), 2);
    assert_eq!(Line::from("a\r\nb").grapheme_count(), 3);
}

#[test]
fn grapheme_to_byte_idx_maps_past_the_end_to_the_length() {
    let line = Line::from("aé😀z");
    assert_eq!(line.grapheme_to_byte_idx(0), 0);
    assert_eq!(line.grapheme_to_byte_idx(1), 1);
    assert_eq!(line.grapheme_to_byte_idx(2), 3);
    assert_eq!(line.grapheme_to_byte_idx(3), 7);
    assert_eq!(line.grapheme_to_byte_idx(4), 8);
    assert_eq!(line.grapheme_to_byte_idx(400), 8);
}

#[test]
fn byte_idx_to_grapheme_idx_finds_the_cluster_that_holds_the_byte() {
    let line = Line::from("aé😀z");
    assert_eq!(line.byte_idx_to_grapheme_idx(0), Some(0));
    assert_eq!(line.byte_idx_to_grapheme_idx(1), Some(1));
    assert_eq!(line.byte_idx_to_grapheme_idx(2), Some(1));
    assert_eq!(line.byte_idx_to_grapheme_idx(3), Some(2));
    assert_eq!(line.byte_idx_to_grapheme_idx(6), Some(2));
    assert_eq!(line.byte_idx_to_grapheme_idx(7), Some(3));
    // the end of the line is the place behind the last cluster
    assert_eq!(line.byte_idx_to_grapheme_idx(8), Some(4));
    assert_eq!(line.byte_idx_to_grapheme_idx(9), None);
    assert_eq!(line.byte_idx_to_grapheme_idx(usize::MAX), None);
    assert_eq!(Line::from("").byte_idx_to_grapheme_idx(0), Some(0));
    assert_eq!(Line::from("").byte_idx_to_grapheme_idx(1), None);
}

#[test]
fn cluster_to_byte_and_back_is_the_cluster() {
    for text in ["", "abc", "aé😀z", "e\u{301}x", "日本語", "\t a\u{200b}b"] {
        let line = Line::from(text);
        for i in 0..=line.grapheme_count() {
            assert_eq!(line.byte_idx_to_grapheme_idx(line.grapheme_to_byte_idx(i)), Some(i));
        }
        assert_eq!(line.grapheme_to_byte_idx(line.grapheme_count()), line.line_length());
    }
}

#[test]
fn insert_char_inserts_before_the_cluster_or_appends() {
    let mut line = Line::from("aé😀z");
    line.insert_char('X', 2);
    assert_eq!(line.to_string(), "aéX😀z");
    line.insert_char('Y', 0);
    assert_eq!(line.to_string(), "YaéX😀z");
    line.insert_char('Z', 6);
    assert_eq!(line.to_string(), "YaéX😀zZ");
    line.insert_char('!', 1000);
    assert_eq!(line.to_string(), "YaéX😀zZ!");
    assert_eq!(line.grapheme_count(), 8);
}

#[test]
fn append_char_and_delete_last() {
    let mut line = Line::new();
    line.append_char('a');
    line.append_char('ü');
    assert_eq!(line.to_string(), "aü");
    line.delete_last();
    assert_eq!(line.to_string(), "a");
    line.delete_last();
    line.delete_last();
    assert_eq!(line.to_string(), "");
}

#[test]
fn delete_removes_one_cluster_and_ignores_what_is_not_there() {
    let mut line = Line::from("ae\u{301}z");
    line.delete(1);
    assert_eq!(line.to_string(), "az");
    line.delete(2);
    assert_eq!(line.to_string(), "az");
    line.delete(0);
    assert_eq!(line.to_string(), "z");
}

#[test]
fn insert_then_delete_restores_the_line() {
    for text in ["", "abc", "aé😀z", "日本語"] {
        for at in 0..6 {
            let mut line = Line::from(text);
            // an index past the end appends, so the character then stands at
            // the index of the last cluster
            let where_it_lands = at.min(line.grapheme_count());
            line.insert_char('Q', at);
            line.delete(where_it_lands);
            assert_eq!(line.to_string(), text);
        }
    }
}

#[test]
fn insert_of_a_combining_mark_does_not_round_trip() {
    // the mark joins the cluster before it, so the cluster at the index is
    // another one
    let mut line = Line::from("ab");
    line.insert_char('\u{301}', 1);
    assert_eq!(line.grapheme_count(), 2);
    line.delete(1);
    assert_eq!(line.to_string(), "a\u{301}");
}

#[test]
fn delete_byte_range_clamps_and_ignores_empty_ranges() {
    let mut line = Line::from("abcdef");
    line.delete_byte_range(2..4);
    assert_eq!(line.to_string(), "abef");
    line.delete_byte_range(3..100);
    assert_eq!(line.to_string(), "abe");
    line.delete_byte_range(2..2);
    assert_eq!(line.to_string(), "abe");
    #[allow(clippy::reversed_empty_ranges)]
    line.delete_byte_range(2..1);
    assert_eq!(line.to_string(), "abe");
    line.delete_byte_range(50..60);
    assert_eq!(line.to_string(), "abe");
}

#[test]
fn delete_byte_range_never_cuts_a_character() {
    let mut line = Line::from("aéz");
    // byte 2 lies inside the two bytes of é
    line.delete_byte_range(0..2);
    assert_eq!(line.to_string(), "éz");
    let mut line = Line::from("aéz");
    line.delete_byte_range(2..4);
    assert_eq!(line.to_string(), "a");
}

#[test]
fn append_joins_two_lines() {
    let mut line = Line::from("ab");
    line.append(&Line::from("çd"));
    assert_eq!(line.to_string(), "abçd");
    assert_eq!(line.grapheme_count(), 4);
}

#[test]
fn split_cuts_in_front_of_the_cluster() {
    let mut line = Line::from("aé😀z");
    let rest = line.split(2);
    assert_eq!(line.to_string(), "aé");
    assert_eq!(rest.to_string(), "😀z");
    let mut line = Line::from("abc");
    let rest = line.split(3);
    assert_eq!(line.to_string(), "abc");
    assert_eq!(rest.to_string(), "");
    let mut line = Line::from("abc");
    let rest = line.split(0);
    assert_eq!(line.to_string(), "");
    assert_eq!(rest.to_string(), "abc");
}

#[test]
fn width_counts_columns() {
    let line = Line::from("a日b");
    assert_eq!(line.width_until(0), 0);
    assert_eq!(line.width_until(1), 1);
    assert_eq!(line.width_until(2), 3);
    assert_eq!(line.width_until(3), 4);
    assert_eq!(line.width_until(30), 4);
    assert_eq!(line.width(), 4);
    assert_eq!(Line::from("").width(), 0);
    // a tab and a zero width space take one column each
    assert_eq!(Line::from("\t\u{200b}").width(), 2);
}

#[test]
fn display_width_to_byte_pos_never_lands_inside_a_cluster() {
    let line = Line::from("a日b");
    assert_eq!(line.display_width_to_byte_pos(0), 0);
    assert_eq!(line.display_width_to_byte_pos(1), 1);
    // column 2 is the right half of 日, which starts at byte 1
    assert_eq!(line.display_width_to_byte_pos(2), 1);
    assert_eq!(line.display_width_to_byte_pos(3), 4);
    assert_eq!(line.display_width_to_byte_pos(4), 5);
    assert_eq!(line.display_width_to_byte_pos(100), 5);
    assert_eq!(Line::from("").display_width_to_byte_pos(3), 0);
}

#[test]
fn grapheme_at_gives_the_text_of_the_cluster() {
    let line = Line::from("ae\u{301}z");
    assert_eq!(line.grapheme_at(0).as_deref(), Some("a"));
    assert_eq!(line.grapheme_at(1).as_deref(), Some("e\u{301}"));
    assert_eq!(line.grapheme_at(2).as_deref(), Some("z"));
    assert_eq!(line.grapheme_at(3), None);
}

#[test]
fn whitespace_and_delimiters() {
    let line = Line::from("a ,;\tb\u{3000}");
    assert!(!line.is_whitespace_at(0));
    assert!(line.is_whitespace_at(1));
    assert!(!line.is_whitespace_at(2));
    assert!(line.is_whitespace_at(4));
    assert!(line.is_whitespace_at(6));
    assert!(!line.is_whitespace_at(7));
    assert!(!line.is_word_delimiter_at(0));
    assert!(line.is_word_delimiter_at(1));
    assert!(line.is_word_delimiter_at(2));
    assert!(line.is_word_delimiter_at(3));
    assert!(line.is_word_delimiter_at(4));
    assert!(!line.is_word_delimiter_at(5));
    assert!(!line.is_word_delimiter_at(70));
}

#[test]
fn next_word_end_stops_behind_identifiers_and_angle_blocks() {
    let line = Line::from("#include <stdio.h>");
    assert_eq!(line.next_word_end(0), Some(8));
    assert_eq!(line.next_word_end(8), Some(18));
    assert_eq!(line.next_word_end(18), None);
    let line = Line::from("foo_bar  baz9");
    assert_eq!(line.next_word_end(0), Some(7));
    assert_eq!(line.next_word_end(3), Some(7));
    assert_eq!(line.next_word_end(7), Some(13));
    assert_eq!(line.next_word_end(13), None);
    assert_eq!(line.next_word_end(99), None);
    // an angle bracket that never closes is no word
    assert_eq!(Line::from("a <b").next_word_end(1), None);
    assert_eq!(Line::from("  ,, ").next_word_end(0), None);
}

#[test]
fn next_word_start_finds_the_first_cluster_of_a_word() {
    let line = Line::from("  foo <x>");
    assert_eq!(line.next_word_start(0), Some(2));
    assert_eq!(line.next_word_start(2), Some(2));
    assert_eq!(line.next_word_start(5), Some(6));
    assert_eq!(line.next_word_start(7), Some(7));
    assert_eq!(line.next_word_start(8), None);
}

#[test]
fn prev_word_start_goes_to_the_start_of_the_word_before() {
    let line = Line::from("foo_bar  baz9");
    assert_eq!(line.prev_word_start(0), None);
    assert_eq!(line.prev_word_start(3), Some(0));
    assert_eq!(line.prev_word_start(7), Some(0));
    assert_eq!(line.prev_word_start(9), Some(0));
    assert_eq!(line.prev_word_start(10), Some(9));
    assert_eq!(line.prev_word_start(13), Some(9));
    let line = Line::from("#include <stdio.h> x");
    assert_eq!(line.prev_word_start(18), Some(9));
    assert_eq!(line.prev_word_start(9), Some(1));
    assert_eq!(line.prev_word_start(1), None);
    assert_eq!(Line::from("  ,").prev_word_start(3), None);
}

#[test]
fn search_forward_finds_the_first_hit_from_the_cluster_on() {
    let line = Line::from("one two one");
    assert_eq!(line.search_forward("one", 0), Some(0));
    assert_eq!(line.search_forward("one", 1), Some(8));
    assert_eq!(line.search_forward("one", 8), Some(8));
    assert_eq!(line.search_forward("one", 9), None);
    assert_eq!(line.search_forward("two", 0), Some(4));
    assert_eq!(line.search_forward("xyz", 0), None);
    // nothing is found from the end of the line on
    assert_eq!(line.search_forward("one", 11), None);
    assert_eq!(line.search_forward("one", 12), None);
    assert_eq!(Line::from("").search_forward("a", 0), None);
}

#[test]
fn search_backward_finds_the_last_hit_before_the_cluster() {
    let line = Line::from("one two one");
    assert_eq!(line.search_backward("one", 11), Some(8));
    assert_eq!(line.search_backward("one", 10), Some(0));
    assert_eq!(line.search_backward("one", 3), Some(0));
    assert_eq!(line.search_backward("one", 2), None);
    assert_eq!(line.search_backward("one", 0), None);
    assert_eq!(line.search_backward("two", 11), Some(4));
}

#[test]
fn search_reports_cluster_indices_not_bytes() {
    let line = Line::from("日本語 needle");
    assert_eq!(line.search_forward("needle", 0), Some(4));
    assert_eq!(line.search_forward("本", 0), Some(1));
    assert_eq!(line.search_backward("本", 7), Some(1));
}

#[test]
fn search_rejects_a_hit_that_splits_a_cluster() {
    // the bytes of "e" stand at the start of the cluster "e\u{301}"
    let line = Line::from("e\u{301}x e");
    assert_eq!(line.search_forward("e", 0), Some(3));
    assert_eq!(line.search_backward("e", 4), Some(3));
    assert_eq!(line.search_backward("e", 3), None);
    assert_eq!(line.search_forward("e\u{301}", 0), Some(0));
}

#[test]
fn search_hits_do_not_overlap() {
    let line = Line::from("aaa");
    assert_eq!(line.search_forward("aa", 0), Some(0));
    assert_eq!(line.search_forward("aa", 1), Some(1));
    // from the left the hits are 0..2 only, so the last one before the end is 0
    assert_eq!(line.search_backward("aa", 3), Some(0));
}

#[test]
fn visible_graphemes_are_cut_to_the_columns() {
    let line = Line::from("abcdef");
    assert_eq!(line.get_visible_graphemes(0..3), "abc");
    assert_eq!(line.get_visible_graphemes(2..4), "cd");
    assert_eq!(line.get_visible_graphemes(4..100), "ef");
    assert_eq!(line.get_visible_graphemes(6..100), "");
    assert_eq!(line.get_visible_graphemes(3..3), "");
    #[allow(clippy::reversed_empty_ranges)]
    let empty = line.get_visible_graphemes(4..2);
    assert_eq!(empty, "");
}

#[test]
fn visible_graphemes_keep_wide_clusters_whole() {
    let line = Line::from("a日b");
    assert_eq!(line.get_visible_graphemes(0..4), "a日b");
    assert_eq!(line.get_visible_graphemes(1..3), "日");
    // a window that starts in the right half of 日 starts with 日
    assert_eq!(line.get_visible_graphemes(2..4), "日b");
}

#[test]
fn glyphs_stand_in_for_what_cannot_be_shown() {
    assert_eq!(Line::from("a\tb").get_visible_graphemes(0..10), "a b");
    assert_eq!(Line::from("a b").get_visible_graphemes(0..10), "a b");
    assert_eq!(Line::from("a\u{3000}b").get_visible_graphemes(0..10), "a␣b");
    assert_eq!(Line::from("a\u{200b}b").get_visible_graphemes(0..10), "a·b");
    assert_eq!(Line::from("a\u{7}b").get_visible_graphemes(0..10), "a▯b");
}

#[test]
fn several_glyphs_of_other_lengths_land_in_their_places() {
    // each of the zero width spaces takes three bytes and its glyph two
    let line = Line::from("\u{200b}x\u{200b}y\u{200b}");
    assert_eq!(line.get_visible_graphemes(0..10), "·x·y·");
    assert_eq!(line.get_visible_graphemes(1..4), "x·y");
}

#[test]
fn matches_are_annotated_and_the_one_at_the_caret_is_selected() {
    let line = Line::from("ab ab ab");
    let (shown, _) = line.get_annotated_visible_substr(
        0..80,
        Some("ab"),
        Some(3),
        no_highlighter(),
        HighlightState::default(),
        None,
        None,
    );
    let parts: Vec<(String, Option<AnnotationType>)> =
        shown.parts().iter().map(|p| (p.string.to_string(), p.annotation_type)).collect();
    assert_eq!(
        parts,
        vec![
            ("ab".to_string(), Some(AnnotationType::Match)),
            (" ".to_string(), None),
            ("ab".to_string(), Some(AnnotationType::SelectedMatch)),
            (" ".to_string(), None),
            ("ab".to_string(), Some(AnnotationType::Match)),
        ]
    );
}

#[test]
fn annotations_follow_the_cut_of_the_window() {
    let line = Line::from("0123456789");
    let (shown, _) = line.get_annotated_visible_substr(
        3..8,
        None,
        None,
        no_highlighter(),
        HighlightState::default(),
        None,
        Some(4..6),
    );
    assert_eq!(shown.to_string(), "34567");
    let parts: Vec<(String, Option<AnnotationType>)> =
        shown.parts().iter().map(|p| (p.string.to_string(), p.annotation_type)).collect();
    assert_eq!(
        parts,
        vec![
            ("3".to_string(), None),
            ("45".to_string(), Some(AnnotationType::Selection)),
            ("67".to_string(), None),
        ]
    );
}

#[test]
fn the_highlighter_is_asked_when_nothing_is_cached() {
    let highlighter = LanguageHighlighter::Rust(RustHighlighter::new());
    let line = Line::from("let x = 1; /* open");
    let (shown, state) = line.get_annotated_visible_substr(
        0..80,
        None,
        None,
        Some(&highlighter),
        HighlightState::default(),
        None,
        None,
    );
    assert!(state.in_block_comment);
    let first = &shown.parts()[0];
    assert_eq!(first.string, "let");
    assert_eq!(first.annotation_type, Some(AnnotationType::Keyword));
}

#[test]
fn cached_annotations_go_before_the_highlighter() {
    let highlighter = LanguageHighlighter::Rust(RustHighlighter::new());
    let line = Line::from("let x");
    let cached = vec![HighlightAnnotation { annotation_type: AnnotationType::Comment, start: 0, end: 5 }];
    let before = HighlightState { in_block_comment: true, ..HighlightState::default() };
    let (shown, state) = line.get_annotated_visible_substr(
        0..80,
        None,
        None,
        Some(&highlighter),
        before,
        Some(&cached),
        None,
    );
    assert!(state.in_block_comment);
    let parts = shown.parts();
    assert_eq!(parts.len(), 1);
    assert_eq!(parts[0].string, "let x");
    assert_eq!(parts[0].annotation_type, Some(AnnotationType::Comment));
}
