use den::annotated_string::AnnotatedString;
use den::annotation_type::AnnotationType;

fn parts_of(text: &AnnotatedString) -> Vec<(String, Option<AnnotationType>)> {
    text.parts().iter().map(|p| (p.string.to_string(), p.annotation_type)).collect()
}

fn part(text: &str, kind: Option<AnnotationType>) -> (String, Option<AnnotationType>) {
    (text.to_string(), kind)
}

fn annotations_of(text: &AnnotatedString) -> Vec<(AnnotationType, usize, usize)> {
    (0..text.annotation_count())
        .map(|i| {
            let a = text.annotation(i);
            (a.kind, a.start, a.end)
        })
        .collect()
}

fn joined(text: &AnnotatedString) -> String {
    text.parts().iter().map(|p| p.string).collect()
}

#[test]
fn a_text_without_annotations_is_one_part() {
    let text = AnnotatedString::from("hello");
    assert_eq!(parts_of(&text), vec![part("hello", None)]);
    assert_eq!(text.len(), 5);
    assert_eq!(AnnotatedString::new().parts().len(), 0);
    assert_eq!(AnnotatedString::from("").parts().len(), 0);
}

#[test]
fn an_annotation_in_the_middle_gives_three_parts() {
    let mut text = AnnotatedString::from("0123456789");
    text.add_annotation(AnnotationType::Keyword, 3, 6);
    assert_eq!(
        parts_of(&text),
        vec![part("012", None), part("345", Some(AnnotationType::Keyword)), part("6789", None)]
    );
}

#[test]
fn adjacent_annotations_do_not_swallow_each_other() {
    let mut text = AnnotatedString::from("aabbcc");
    text.add_annotation(AnnotationType::Keyword, 0, 2);
    text.add_annotation(AnnotationType::Number, 2, 4);
    text.add_annotation(AnnotationType::Type, 4, 6);
    assert_eq!(
        parts_of(&text),
        vec![
            part("aa", Some(AnnotationType::Keyword)),
            part("bb", Some(AnnotationType::Number)),
            part("cc", Some(AnnotationType::Type)),
        ]
    );
}

#[test]
fn a_nested_annotation_added_later_shows_through() {
    let mut text = AnnotatedString::from("0123456789");
    text.add_annotation(AnnotationType::Comment, 0, 10);
    text.add_annotation(AnnotationType::Match, 3, 5);
    assert_eq!(
        parts_of(&text),
        vec![
            part("012", Some(AnnotationType::Comment)),
            part("34", Some(AnnotationType::Match)),
            part("56789", Some(AnnotationType::Comment)),
        ]
    );
}

#[test]
fn a_nested_annotation_added_earlier_is_covered() {
    let mut text = AnnotatedString::from("0123456789");
    text.add_annotation(AnnotationType::Match, 3, 5);
    text.add_annotation(AnnotationType::Comment, 0, 10);
    // the part is still cut where the match starts, but the comment was added
    // last and so it is shown
    assert_eq!(
        parts_of(&text),
        vec![part("012", Some(AnnotationType::Comment)), part("3456789", Some(AnnotationType::Comment))]
    );
}

#[test]
fn a_selection_wins_over_what_was_added_later() {
    let mut text = AnnotatedString::from("0123456789");
    text.add_annotation(AnnotationType::Selection, 2, 5);
    text.add_annotation(AnnotationType::Comment, 0, 10);
    text.add_annotation(AnnotationType::Match, 3, 4);
    assert_eq!(
        parts_of(&text),
        vec![
            part("01", Some(AnnotationType::Comment)),
            part("2", Some(AnnotationType::Selection)),
            part("34", Some(AnnotationType::Selection)),
            part("56789", Some(AnnotationType::Comment)),
        ]
    );
}

#[test]
fn fully_overlapping_annotations_show_the_last() {
    let mut text = AnnotatedString::from("abcd");
    text.add_annotation(AnnotationType::Keyword, 0, 4);
    text.add_annotation(AnnotationType::Type, 0, 4);
    assert_eq!(parts_of(&text), vec![part("abcd", Some(AnnotationType::Type))]);
}

#[test]
fn partly_overlapping_annotations_are_cut_at_every_start() {
    let mut text = AnnotatedString::from("0123456789");
    text.add_annotation(AnnotationType::Keyword, 0, 6);
    text.add_annotation(AnnotationType::Number, 4, 9);
    assert_eq!(
        parts_of(&text),
        vec![
            part("0123", Some(AnnotationType::Keyword)),
            part("45678", Some(AnnotationType::Number)),
            part("9", None),
        ]
    );
}

#[test]
fn an_annotation_beyond_the_text_is_cut_at_its_end() {
    let mut text = AnnotatedString::from("abc");
    text.add_annotation(AnnotationType::String, 1, 100);
    text.add_annotation(AnnotationType::Number, 50, 60);
    assert_eq!(parts_of(&text), vec![part("a", None), part("bc", Some(AnnotationType::String))]);
    // an empty annotation covers nothing, but a part still ends where it starts
    text.add_annotation(AnnotationType::Keyword, 2, 2);
    assert_eq!(
        parts_of(&text),
        vec![part("a", None), part("b", Some(AnnotationType::String)), part("c", Some(AnnotationType::String))]
    );
}

#[test]
fn parts_put_together_are_the_text() {
    let cases: Vec<Vec<(AnnotationType, usize, usize)>> = vec![
        vec![],
        vec![(AnnotationType::Keyword, 0, 0)],
        vec![(AnnotationType::Keyword, 0, 3), (AnnotationType::Number, 3, 6)],
        vec![(AnnotationType::Comment, 0, 40), (AnnotationType::Selection, 2, 5)],
        vec![(AnnotationType::Comment, 1, 2), (AnnotationType::Comment, 1, 2)],
        vec![(AnnotationType::Match, 5, 9), (AnnotationType::String, 0, 7), (AnnotationType::Type, 6, 8)],
        // ends that lie inside the bytes of a character
        vec![(AnnotationType::Match, 1, 2), (AnnotationType::Keyword, 2, 3)],
        vec![(AnnotationType::Selection, 2, 6), (AnnotationType::Match, 4, 5)],
        vec![(AnnotationType::Number, 0, 1), (AnnotationType::Number, 1, 2), (AnnotationType::Number, 2, 3)],
    ];
    for text in ["", "plain ascii text", "é", "aé😀z日本語", "😀😀😀"] {
        for case in &cases {
            let mut annotated = AnnotatedString::from(text);
            for (kind, start, end) in case {
                annotated.add_annotation(*kind, *start, *end);
            }
            assert_eq!(joined(&annotated), text);
            assert!(annotated.parts().iter().all(|p| !p.string.is_empty()));
        }
    }
}

#[test]
fn an_annotation_that_ends_inside_a_character_does_not_stall() {
    // é takes the bytes 0..2; the annotation covers only the first
    let mut text = AnnotatedString::from("éa");
    text.add_annotation(AnnotationType::Keyword, 0, 1);
    assert_eq!(parts_of(&text), vec![part("éa", None)]);
    let mut text = AnnotatedString::from("aéb");
    text.add_annotation(AnnotationType::Keyword, 0, 2);
    // the end is moved down to the start of é
    assert_eq!(parts_of(&text), vec![part("a", Some(AnnotationType::Keyword)), part("éb", None)]);
}

#[test]
fn the_iterator_gives_the_parts_one_by_one() {
    let mut text = AnnotatedString::from("abcdef");
    text.add_annotation(AnnotationType::Type, 2, 4);
    let mut it = text.iter();
    let first = it.next().unwrap();
    assert_eq!((first.string, first.annotation_type), ("ab", None));
    assert_eq!(it.current_idx, 2);
    let second = it.next().unwrap();
    assert_eq!((second.string, second.annotation_type), ("cd", Some(AnnotationType::Type)));
    let third = it.next().unwrap();
    assert_eq!((third.string, third.annotation_type), ("ef", None));
    assert!(it.next().is_none());
    assert!(it.next().is_none());
    assert_eq!(it.current_idx, 6);
}

#[test]
fn replace_with_the_same_length_moves_nothing_and_drops_what_is_empty() {
    let mut text = AnnotatedString::from("0123456789");
    text.add_annotation(AnnotationType::Keyword, 2, 5);
    text.add_annotation(AnnotationType::Number, 7, 7);
    text.add_annotation(AnnotationType::Type, 3, 4);
    text.add_annotation(AnnotationType::String, 10, 12);
    text.add_annotation(AnnotationType::Comment, 9, 12);
    text.replace(3, 4, "x");
    assert_eq!(text.to_string(), "012x456789");
    assert_eq!(
        annotations_of(&text),
        vec![(AnnotationType::Keyword, 2, 5), (AnnotationType::Type, 3, 4), (AnnotationType::Comment, 9, 12)]
    );
}

#[test]
fn the_smallest_replacement_drops_an_empty_annotation() {
    let mut text = AnnotatedString::from("abc");
    text.add_annotation(AnnotationType::Keyword, 1, 1);
    text.replace(0, 1, "x");
    assert_eq!(text.to_string(), "xbc");
    assert_eq!(annotations_of(&text), vec![]);
}

#[test]
fn a_replacement_that_is_not_carried_out_drops_what_is_empty_all_the_same() {
    let mut text = AnnotatedString::from("abc");
    text.add_annotation(AnnotationType::Keyword, 0, 2);
    text.add_annotation(AnnotationType::Number, 2, 2);
    text.add_annotation(AnnotationType::Type, 3, 9);
    text.replace(5, 6, "never");
    assert_eq!(text.to_string(), "abc");
    assert_eq!(annotations_of(&text), vec![(AnnotationType::Keyword, 0, 2)]);
}

#[test]
fn replace_by_a_shorter_text_shifts_and_clamps() {
    // the bytes 4..8 give way to one byte: everything shrinks by 3
    let mut text = AnnotatedString::from("0123456789");
    text.add_annotation(AnnotationType::Keyword, 0, 3); // before: stays
    text.add_annotation(AnnotationType::Number, 8, 10); // behind: moves by 3
    text.add_annotation(AnnotationType::Type, 5, 7); // inside: both ends clamp to 4
    text.add_annotation(AnnotationType::String, 2, 6); // end inside: clamps to 4
    text.add_annotation(AnnotationType::Comment, 6, 9); // start inside, end behind
    text.add_annotation(AnnotationType::Match, 7, 8); // start inside moves to 4, end at 8 moves to 5
    text.replace(4, 8, "x");
    assert_eq!(text.to_string(), "0123x89");
    assert_eq!(
        annotations_of(&text),
        vec![
            (AnnotationType::Keyword, 0, 3),
            (AnnotationType::Number, 5, 7),
            (AnnotationType::String, 2, 4),
            (AnnotationType::Comment, 4, 6),
            (AnnotationType::Match, 4, 5),
        ]
    );
}

#[test]
fn replace_by_a_longer_text_shifts_and_clamps() {
    // the bytes 4..6 give way to five bytes: everything grows by 3
    let mut text = AnnotatedString::from("0123456789");
    text.add_annotation(AnnotationType::Keyword, 0, 3); // before: stays
    text.add_annotation(AnnotationType::Number, 6, 8); // behind: moves by 3
    text.add_annotation(AnnotationType::Type, 4, 5); // inside: 4+3 and 5+3 both clamp to 6, so it goes
    text.add_annotation(AnnotationType::String, 2, 5); // end inside clamps to 6
    text.add_annotation(AnnotationType::Comment, 5, 9); // start inside clamps to 6, end moves to 12
    text.replace(4, 6, "abcde");
    assert_eq!(text.to_string(), "0123abcde6789");
    assert_eq!(
        annotations_of(&text),
        vec![
            (AnnotationType::Keyword, 0, 3),
            (AnnotationType::Number, 9, 11),
            (AnnotationType::String, 2, 6),
            (AnnotationType::Comment, 6, 12),
        ]
    );
}

#[test]
fn replace_drops_what_starts_behind_the_new_text() {
    let mut text = AnnotatedString::from("0123456789");
    text.add_annotation(AnnotationType::Keyword, 8, 30);
    text.add_annotation(AnnotationType::Number, 20, 30);
    text.replace(0, 6, "");
    assert_eq!(text.to_string(), "6789");
    // 8..30 moves to 2..24 and stays; 20..30 moves to 14..24 and starts behind the text
    assert_eq!(annotations_of(&text), vec![(AnnotationType::Keyword, 2, 24)]);
}

#[test]
fn replace_never_leaves_an_empty_or_outlying_annotation() {
    let spans = [(0, 1), (0, 10), (2, 3), (3, 7), (5, 5), (6, 9), (9, 10), (10, 12), (4, 4)];
    for start in 0..14 {
        for end in start..15 {
            for with in ["", "x", "xyz", "0123456"] {
                let mut text = AnnotatedString::from("0123456789");
                for (s, e) in spans {
                    text.add_annotation(AnnotationType::Keyword, s, e);
                }
                text.replace(start, end, with);
                for (_, s, e) in annotations_of(&text) {
                    assert!(s < e);
                    assert!(s < text.len());
                }
            }
        }
    }
}

#[test]
fn replace_clamps_the_end_and_ignores_a_start_behind_it() {
    let mut text = AnnotatedString::from("abc");
    text.replace(1, 100, "Z");
    assert_eq!(text.to_string(), "aZ");
    text.replace(5, 6, "never");
    assert_eq!(text.to_string(), "aZ");
    text.replace(2, 2, "!");
    assert_eq!(text.to_string(), "aZ!");
}

#[test]
fn replace_moves_its_ends_down_to_character_boundaries() {
    // é takes the bytes 1..3
    let mut text = AnnotatedString::from("aéb");
    text.replace(2, 4, "X");
    assert_eq!(text.to_string(), "aX");
}

#[test]
fn truncate_left_and_right() {
    let mut text = AnnotatedString::from("0123456789");
    text.add_annotation(AnnotationType::Keyword, 2, 8);
    text.truncate_right_from(6);
    assert_eq!(text.to_string(), "012345");
    assert_eq!(annotations_of(&text), vec![(AnnotationType::Keyword, 2, 6)]);
    text.truncate_left_until(3);
    assert_eq!(text.to_string(), "345");
    assert_eq!(annotations_of(&text), vec![(AnnotationType::Keyword, 0, 3)]);
}
