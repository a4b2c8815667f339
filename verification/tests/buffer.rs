use den::buffer::Buffer;
use den::fileinfo::FileInfo;
use den::line::Line;
use den::location::Location;

fn at(line_idx: usize, grapheme_idx: usize) -> Location {
    Location { line_idx, grapheme_idx }
}

fn buffer_of(text: &str) -> Buffer {
    Buffer::load(FileInfo::new(), text)
}

fn lines_of(buffer: &Buffer) -> Vec<String> {
    buffer.lines.iter().map(|line| line.to_string()).collect()
}

#[test]
fn load_splits_at_line_endings() {
    assert_eq!(lines_of(&buffer_of("")), Vec::<String>::new());
    assert_eq!(lines_of(&buffer_of("a")), vec!["a"]);
    assert_eq!(lines_of(&buffer_of("a\nb")), vec!["a", "b"]);
    assert_eq!(lines_of(&buffer_of("a\nb\n")), vec!["a", "b"]);
    assert_eq!(lines_of(&buffer_of("a\r\nb\r\n")), vec!["a", "b"]);
    assert_eq!(lines_of(&buffer_of("\n\nx")), vec!["", "", "x"]);
    assert_eq!(lines_of(&buffer_of("\n")), vec![""]);
    // a carriage return counts only in front of a line feed
    assert_eq!(lines_of(&buffer_of("a\rb\r")), vec!["a\rb\r"]);
    assert_eq!(lines_of(&buffer_of("\r\n")), vec![""]);
    let buffer = buffer_of("héllo\nwörld");
    assert!(!buffer.modified);
    assert_eq!(buffer.height(), 2);
    assert!(!buffer.is_empty());
    assert!(buffer_of("").is_empty());
}

#[test]
fn load_agrees_with_the_lines_of_the_standard_library() {
    for text in ["", "a", "a\n", "a\r\n", "\r\n\r\n", "a\n\nb", "x\ry\nz\r", "é\n😀\r\n日本", "\n", "\r", "a\n\r\nb"] {
        let expected: Vec<String> = text.lines().map(|l| l.to_string()).collect();
        assert_eq!(lines_of(&buffer_of(text)), expected);
    }
}

#[test]
fn contents_put_a_line_feed_behind_every_line() {
    assert_eq!(buffer_of("").contents(), "");
    assert_eq!(buffer_of("a").contents(), "a\n");
    assert_eq!(buffer_of("a\r\nbé\n\n").contents(), "a\nbé\n\n");
}

#[test]
fn insert_char_into_a_line_at_its_end_and_behind_the_last_line() {
    let mut buffer = buffer_of("ab\ncd");
    buffer.insert_char('X', at(0, 1));
    assert_eq!(lines_of(&buffer), vec!["aXb", "cd"]);
    assert!(buffer.modified);
    buffer.insert_char('Y', at(1, 99));
    assert_eq!(lines_of(&buffer), vec!["aXb", "cdY"]);
    buffer.insert_char('Z', at(2, 0));
    assert_eq!(lines_of(&buffer), vec!["aXb", "cdY", "Z"]);
}

#[test]
fn insert_char_below_the_document_does_nothing() {
    let mut buffer = buffer_of("ab");
    buffer.insert_char('X', at(2, 0));
    assert_eq!(lines_of(&buffer), vec!["ab"]);
    assert!(!buffer.modified);
    let mut empty = Buffer::new();
    empty.insert_char('a', at(0, 0));
    assert_eq!(lines_of(&empty), vec!["a"]);
    assert!(empty.modified);
}

#[test]
fn delete_takes_a_cluster_or_joins_two_lines() {
    let mut buffer = buffer_of("ab\ncd\nef");
    buffer.delete(at(0, 0));
    assert_eq!(lines_of(&buffer), vec!["b", "cd", "ef"]);
    buffer.delete(at(0, 1));
    assert_eq!(lines_of(&buffer), vec!["bcd", "ef"]);
    buffer.delete(at(0, 7));
    assert_eq!(lines_of(&buffer), vec!["bcdef"]);
    assert!(buffer.modified);
}

#[test]
fn delete_where_nothing_is_does_nothing() {
    let mut buffer = buffer_of("ab");
    buffer.delete(at(0, 2));
    buffer.delete(at(1, 0));
    buffer.delete(at(7, 7));
    assert_eq!(lines_of(&buffer), vec!["ab"]);
    assert!(!buffer.modified);
}

#[test]
fn insert_newline_cuts_the_line() {
    let mut buffer = buffer_of("abcd");
    buffer.insert_newline(at(0, 2));
    assert_eq!(lines_of(&buffer), vec!["ab", "cd"]);
    buffer.insert_newline(at(1, 0));
    assert_eq!(lines_of(&buffer), vec!["ab", "", "cd"]);
    buffer.insert_newline(at(2, 2));
    assert_eq!(lines_of(&buffer), vec!["ab", "", "cd", ""]);
    buffer.insert_newline(at(4, 0));
    assert_eq!(lines_of(&buffer), vec!["ab", "", "cd", "", ""]);
    assert!(buffer.modified);
    let mut other = buffer_of("x");
    other.insert_newline(at(5, 0));
    assert_eq!(lines_of(&other), vec!["x"]);
    assert!(!other.modified);
}

#[test]
fn insert_string_counts_every_line_ending_once() {
    let mut buffer = buffer_of("ad");
    let end = buffer.insert_string(at(0, 1), "b\r\nc\rx\ny");
    assert_eq!(lines_of(&buffer), vec!["ab", "c", "x", "yd"]);
    assert_eq!(end, at(3, 1));
    let mut buffer = Buffer::new();
    let end = buffer.insert_string(at(0, 0), "héllo");
    assert_eq!(lines_of(&buffer), vec!["héllo"]);
    assert_eq!(end, at(0, 5));
    let end = buffer.insert_string(at(0, 5), "");
    assert_eq!(end, at(0, 5));
    let end = buffer.insert_string(at(0, 5), "\n");
    assert_eq!(lines_of(&buffer), vec!["héllo", ""]);
    assert_eq!(end, at(1, 0));
}

#[test]
fn content_at_and_content_deleted_at() {
    let buffer = buffer_of("ae\u{301}\nz");
    assert_eq!(buffer.content_at(at(0, 0)).as_deref(), Some("a"));
    assert_eq!(buffer.content_at(at(0, 1)).as_deref(), Some("e\u{301}"));
    assert_eq!(buffer.content_at(at(0, 2)), None);
    assert_eq!(buffer.content_at(at(2, 0)), None);
    assert_eq!(buffer.content_deleted_at(at(0, 1)).as_deref(), Some("e\u{301}"));
    assert_eq!(buffer.content_deleted_at(at(0, 2)).as_deref(), Some("\n"));
    assert_eq!(buffer.content_deleted_at(at(0, 9)).as_deref(), Some("\n"));
    assert_eq!(buffer.content_deleted_at(at(1, 0)).as_deref(), Some("z"));
    assert_eq!(buffer.content_deleted_at(at(1, 1)), None);
    assert_eq!(buffer.content_deleted_at(at(2, 0)), None);
}

#[test]
fn location_after_text_walks_over_the_text() {
    assert_eq!(Buffer::location_after_text(at(2, 3), ""), at(2, 3));
    assert_eq!(Buffer::location_after_text(at(2, 3), "ab"), at(2, 5));
    assert_eq!(Buffer::location_after_text(at(2, 3), "ab\ncde"), at(3, 3));
    assert_eq!(Buffer::location_after_text(at(2, 3), "\n\n"), at(4, 0));
    assert_eq!(Buffer::location_after_text(at(0, usize::MAX), "a"), at(0, usize::MAX));
}

#[test]
fn delete_range_within_a_line() {
    let mut buffer = buffer_of("abcdef\nxyz");
    buffer.delete_range(at(0, 1), at(0, 4));
    assert_eq!(lines_of(&buffer), vec!["aef", "xyz"]);
    assert!(buffer.modified);
}

#[test]
fn delete_range_joins_the_head_of_the_first_line_and_the_tail_of_the_last() {
    let mut buffer = buffer_of("abcd\nefgh");
    buffer.delete_range(at(0, 2), at(1, 1));
    assert_eq!(lines_of(&buffer), vec!["abfgh"]);
    let mut buffer = buffer_of("one\ntwo\nthree\nfour");
    buffer.delete_range(at(0, 1), at(2, 2));
    assert_eq!(lines_of(&buffer), vec!["oree", "four"]);
    let mut buffer = buffer_of("ab\ncd");
    buffer.delete_range(at(0, 2), at(1, 0));
    assert_eq!(lines_of(&buffer), vec!["abcd"]);
}

#[test]
fn delete_range_that_holds_nothing_does_nothing() {
    let mut buffer = buffer_of("abcd\nefgh");
    buffer.delete_range(at(0, 2), at(0, 2));
    buffer.delete_range(at(0, 3), at(0, 1));
    buffer.delete_range(at(1, 0), at(0, 2));
    buffer.delete_range(at(0, 1), at(2, 0));
    buffer.delete_range(at(5, 0), at(6, 0));
    buffer.delete_range(at(0, 4), at(0, 9));
    assert_eq!(lines_of(&buffer), vec!["abcd", "efgh"]);
    assert!(!buffer.modified);
}

#[test]
fn delete_span_takes_back_what_insert_string_put_in() {
    let mut buffer = buffer_of("ad\nz");
    let from = at(0, 1);
    let text = "b\nc\nxy";
    buffer.insert_string(from, text);
    assert_eq!(lines_of(&buffer), vec!["ab", "c", "xyd", "z"]);
    buffer.delete_span(from, text);
    assert_eq!(lines_of(&buffer), vec!["ad", "z"]);
}

#[test]
fn search_forward_goes_round_the_document_once() {
    let buffer = buffer_of("a needle\nnothing\nnone");
    assert_eq!(buffer.search_forward("needle", at(0, 0)), Some(at(0, 2)));
    assert_eq!(buffer.search_forward("needle", at(0, 2)), Some(at(0, 2)));
    // behind the hit the search goes down and comes back from the top
    assert_eq!(buffer.search_forward("needle", at(0, 3)), Some(at(0, 2)));
    assert_eq!(buffer.search_forward("needle", at(2, 4)), Some(at(0, 2)));
    assert_eq!(buffer.search_forward("needle", at(1, 0)), Some(at(0, 2)));
    assert_eq!(buffer.search_forward("no", at(0, 0)), Some(at(1, 0)));
    assert_eq!(buffer.search_forward("no", at(1, 1)), Some(at(2, 0)));
    assert_eq!(buffer.search_forward("absent", at(0, 0)), None);
    assert_eq!(buffer.search_forward("", at(0, 0)), None);
    assert_eq!(Buffer::new().search_forward("a", at(0, 0)), None);
}

#[test]
fn search_backward_goes_round_the_document_once() {
    let buffer = buffer_of("none\nnothing\na needle");
    assert_eq!(buffer.search_backward("needle", at(2, 8)), Some(at(2, 2)));
    assert_eq!(buffer.search_backward("needle", at(2, 7)), Some(at(2, 2)));
    assert_eq!(buffer.search_backward("needle", at(2, 2)), Some(at(2, 2)));
    assert_eq!(buffer.search_backward("needle", at(0, 0)), Some(at(2, 2)));
    assert_eq!(buffer.search_backward("no", at(2, 0)), Some(at(1, 0)));
    assert_eq!(buffer.search_backward("no", at(1, 0)), Some(at(0, 0)));
    assert_eq!(buffer.search_backward("absent", at(2, 8)), None);
    assert_eq!(buffer.search_backward("", at(2, 8)), None);
}

#[test]
fn save_records_whether_the_file_was_written() {
    let mut buffer = buffer_of("a");
    buffer.insert_char('b', at(0, 1));
    assert!(buffer.modified);
    assert!(!buffer.is_file_loaded());
    buffer.save(false);
    assert!(buffer.modified);
    buffer.save_as(FileInfo::from("/tmp/x.rs", "x.rs", Some("rs")), false);
    assert!(buffer.modified);
    assert!(!buffer.is_file_loaded());
    buffer.save_as(FileInfo::from("/tmp/x.rs", "x.rs", Some("rs")), true);
    assert!(!buffer.modified);
    assert!(buffer.is_file_loaded());
    assert_eq!(buffer.file_info.get_path(), Some("/tmp/x.rs"));
    assert_eq!(buffer.file_info.get_extension(), Some("rs"));
    assert_eq!(buffer.file_info.to_string(), "x.rs");
    buffer.insert_char('c', at(0, 0));
    buffer.save(true);
    assert!(!buffer.modified);
    assert_eq!(FileInfo::default().to_string(), "[No Name]");
}

#[test]
fn from_lines_takes_the_lines_as_they_are() {
    let buffer = Buffer::from_lines(vec![Line::from("a"), Line::from("b")], FileInfo::new());
    assert_eq!(lines_of(&buffer), vec!["a", "b"]);
    assert!(!buffer.modified);
    assert_eq!(lines_of(&Buffer::default()), Vec::<String>::new());
}

#[test]
fn a_new_buffer_is_empty_and_has_no_file() {
    let buffer = Buffer::new();
    assert!(buffer.is_empty());
    assert_eq!(buffer.height(), 0);
    assert!(!buffer.modified);
    assert!(!buffer.is_file_loaded());
    assert_eq!(buffer.file_info.get_path(), None);
    assert_eq!(buffer.file_info.get_extension(), None);
    assert_eq!(buffer.file_info.to_string(), "[No Name]");
}
