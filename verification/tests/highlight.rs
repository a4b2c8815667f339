use den::annotation_type::AnnotationType;
use den::highlight::config::{
    default_rust_config, discover_language_extensions, merge_config, BracketConfig, BracketConfigFile,
    LanguageConfig, LanguageConfigFile,
};
use den::highlight::generic::{tokenize, GenericHighlighter};
use den::highlight::highlighter::{HighlightState, Highlighter, StringType};
use den::highlight::registry::{HighlighterRegistry, LanguageHighlighter};
use den::highlight::rust::RustHighlighter;

type Found = Vec<(AnnotationType, usize, usize)>;

fn rust(line: &str, state: HighlightState) -> (Found, HighlightState) {
    let (annotations, after) = RustHighlighter::new().highlight_line(line, 0, state);
    (annotations.iter().map(|a| (a.annotation_type, a.start, a.end)).collect(), after)
}

fn fresh(line: &str) -> Found {
    rust(line, HighlightState::default()).0
}

fn empty_file() -> LanguageConfigFile {
    LanguageConfigFile {
        keywords: None,
        primitive_types: None,
        line_comment_start: None,
        block_comment_start: None,
        block_comment_end: None,
        brackets: None,
        extensions: None,
    }
}

fn python() -> LanguageConfig {
    LanguageConfig {
        keywords: vec!["def".to_string(), "return".to_string(), "None".to_string()],
        primitive_types: vec!["int".to_string()],
        line_comment_start: "#".to_string(),
        block_comment_start: String::new(),
        block_comment_end: String::new(),
        brackets: vec![BracketConfig { open: '(', close: ')', color_offset: 2 }],
    }
}

#[test]
fn a_keyword_and_a_number() {
    assert_eq!(fresh("let x = 1;"), vec![(AnnotationType::Keyword, 0, 3), (AnnotationType::Number, 8, 9)]);
    assert_eq!(fresh(""), vec![]);
    assert_eq!(fresh("plain words only"), vec![]);
}

#[test]
fn keywords_are_words_of_their_own() {
    // "fn" in "fn_name", "let" in "letter" and "if" in "elif" are no keywords
    assert_eq!(fresh("fn_name letter elif"), vec![]);
    assert_eq!(
        fresh("if a {} else {}"),
        vec![
            (AnnotationType::Keyword, 0, 2),
            (AnnotationType::Keyword, 8, 12),
            (AnnotationType::Bracket1, 5, 6),
            (AnnotationType::Bracket1, 6, 7),
            (AnnotationType::Bracket1, 13, 14),
            (AnnotationType::Bracket1, 14, 15),
        ]
    );
    // keywords come in the order of the list, each from left to right
    assert_eq!(
        fresh("let fn let"),
        vec![
            (AnnotationType::Keyword, 4, 6),
            (AnnotationType::Keyword, 0, 3),
            (AnnotationType::Keyword, 7, 10),
        ]
    );
}

#[test]
fn keywords_match_case() {
    assert_eq!(fresh("Let LET"), vec![(AnnotationType::Type, 0, 3), (AnnotationType::Type, 4, 7)]);
}

#[test]
fn ranges_are_in_bytes() {
    // é takes two bytes, so "let" starts at byte 3
    assert_eq!(fresh("é let"), vec![(AnnotationType::Keyword, 3, 6)]);
    assert_eq!(fresh("日本 (x)"), vec![(AnnotationType::Bracket0, 7, 8), (AnnotationType::Bracket0, 9, 10)]);
    assert_eq!(fresh("\"é\" 7"), vec![(AnnotationType::String, 0, 4), (AnnotationType::Number, 5, 6)]);
}

#[test]
fn strings_with_escapes() {
    assert_eq!(fresh("\"a\\\"b\" x"), vec![(AnnotationType::String, 0, 6)]);
    assert_eq!(fresh("'c' `d`"), vec![(AnnotationType::String, 0, 3), (AnnotationType::String, 4, 7)]);
    // outside a string a backslash is nothing special
    assert_eq!(fresh("\\\"a\""), vec![(AnnotationType::String, 1, 4)]);
}

#[test]
fn triple_quoted_strings() {
    assert_eq!(fresh("\"\"\"abc\"\"\" x"), vec![(AnnotationType::String, 0, 9)]);
    let (found, after) = rust("'''abc", HighlightState::default());
    assert_eq!(found, vec![(AnnotationType::String, 0, 6)]);
    assert_eq!(after.in_string, Some(StringType::TripleSingleQuote));
    // one quote does not close a triple quoted string
    let (found, after) = rust("a ' b", after);
    assert_eq!(found, vec![(AnnotationType::String, 0, 5)]);
    assert_eq!(after.in_string, Some(StringType::TripleSingleQuote));
    let (found, after) = rust("c''' let", after);
    assert_eq!(found, vec![(AnnotationType::String, 0, 4), (AnnotationType::Keyword, 5, 8)]);
    assert_eq!(after.in_string, None);
}

#[test]
fn an_open_string_runs_to_the_end_of_the_line_and_on() {
    let (found, after) = rust("let s = \"abc", HighlightState::default());
    assert_eq!(found, vec![(AnnotationType::String, 8, 12), (AnnotationType::Keyword, 0, 3)]);
    assert_eq!(after.in_string, Some(StringType::DoubleQuote));
    // with the state of the line above the first "fn" lies in the string
    let (found, after) = rust("fn\" fn", after);
    assert_eq!(found, vec![(AnnotationType::String, 0, 3), (AnnotationType::Keyword, 4, 6)]);
    assert_eq!(after.in_string, None);
    // without it the line reads the other way round
    let (found, after) = rust("fn\" fn", HighlightState::default());
    assert_eq!(found, vec![(AnnotationType::String, 2, 6), (AnnotationType::Keyword, 0, 2)]);
    assert_eq!(after.in_string, Some(StringType::DoubleQuote));
}

#[test]
fn an_empty_line_keeps_the_state() {
    let open =
        HighlightState { in_block_comment: true, in_string: Some(StringType::Backtick), ..HighlightState::default() };
    let (found, after) = rust("", open);
    // the string that is open covers the empty line
    assert_eq!(found, vec![(AnnotationType::String, 0, 0)]);
    assert!(after.in_block_comment);
    assert_eq!(after.in_string, Some(StringType::Backtick));
}

#[test]
fn a_block_comment_over_two_lines() {
    let (found, after) = rust("/* foo", HighlightState::default());
    assert_eq!(found, vec![(AnnotationType::Comment, 0, 6)]);
    assert!(after.in_block_comment);
    let (found, after) = rust("bar */", after);
    assert_eq!(found, vec![(AnnotationType::Comment, 0, 6)]);
    assert!(!after.in_block_comment);
}

#[test]
fn block_comments_within_a_line() {
    assert_eq!(
        fresh("a /* b */ let /* c"),
        vec![
            (AnnotationType::Comment, 2, 9),
            (AnnotationType::Comment, 14, 18),
            (AnnotationType::Keyword, 10, 13),
        ]
    );
    let (_, after) = rust("a /* b */ let /* c", HighlightState::default());
    assert!(after.in_block_comment);
    // a whole line inside a comment
    let (found, after) = rust("let x = 1;", after);
    assert_eq!(found, vec![(AnnotationType::Comment, 0, 10)]);
    assert!(after.in_block_comment);
}

#[test]
fn a_comment_marker_inside_a_string_opens_nothing() {
    assert_eq!(
        fresh("\"/*\" x /* c */ y"),
        vec![(AnnotationType::String, 0, 4), (AnnotationType::Comment, 7, 14)]
    );
    assert_eq!(
        fresh("\"//\" // real"),
        vec![(AnnotationType::String, 0, 4), (AnnotationType::Comment, 5, 12)]
    );
}

#[test]
fn a_line_comment_runs_to_the_end_and_never_on() {
    let (found, after) = rust("let a; // let b", HighlightState::default());
    assert_eq!(found, vec![(AnnotationType::Comment, 7, 15), (AnnotationType::Keyword, 0, 3)]);
    assert!(!after.in_block_comment);
    // a line comment marker inside a block comment opens nothing
    assert_eq!(fresh("/* // */ let"), vec![(AnnotationType::Comment, 0, 8), (AnnotationType::Keyword, 9, 12)]);
}

#[test]
fn numbers_take_what_follows_the_first_digit() {
    assert_eq!(fresh("1.5 + 0x1F - 1_000"), vec![
        (AnnotationType::Number, 0, 3),
        (AnnotationType::Number, 6, 10),
        (AnnotationType::Number, 13, 18),
    ]);
    assert_eq!(fresh("7"), vec![(AnnotationType::Number, 0, 1)]);
    assert_eq!(fresh("\"12\" // 34"), vec![(AnnotationType::String, 0, 4), (AnnotationType::Comment, 5, 10)]);
}

#[test]
fn primitive_types_and_the_digits_in_them() {
    assert_eq!(fresh("u8 x"), vec![(AnnotationType::PrimitiveType, 0, 2), (AnnotationType::Number, 1, 2)]);
    assert_eq!(fresh("f64x"), vec![(AnnotationType::Number, 1, 4)]);
}

#[test]
fn type_names_start_a_word_with_an_upper_case_letter() {
    assert_eq!(
        fresh("Foo bar myAPI x_Foo Bar9_z"),
        vec![(AnnotationType::Number, 23, 26), (AnnotationType::Type, 0, 3), (AnnotationType::Type, 20, 26)]
    );
    assert_eq!(fresh("Émile"), vec![(AnnotationType::Type, 0, 6)]);
}

#[test]
fn a_type_name_that_is_a_keyword_is_no_type() {
    let highlighter = GenericHighlighter::with_config("python", python());
    let (found, _) = highlighter.highlight_line("return None", 0, HighlightState::default());
    let found: Found = found.iter().map(|a| (a.annotation_type, a.start, a.end)).collect();
    assert_eq!(found, vec![(AnnotationType::Keyword, 0, 6), (AnnotationType::Keyword, 7, 11)]);
}

#[test]
fn nested_brackets_take_the_colour_of_their_depth() {
    assert_eq!(
        fresh("(())"),
        vec![
            (AnnotationType::Bracket0, 0, 1),
            (AnnotationType::Bracket1, 1, 2),
            (AnnotationType::Bracket1, 2, 3),
            (AnnotationType::Bracket0, 3, 4),
        ]
    );
    let five: Vec<AnnotationType> = fresh("((((())))").iter().map(|f| f.0).collect();
    assert_eq!(
        five,
        vec![
            AnnotationType::Bracket0,
            AnnotationType::Bracket1,
            AnnotationType::Bracket2,
            AnnotationType::Bracket3,
            AnnotationType::Bracket0,
            AnnotationType::Bracket0,
            AnnotationType::Bracket3,
            AnnotationType::Bracket2,
            AnnotationType::Bracket1,
        ]
    );
}

#[test]
fn each_pair_of_brackets_counts_for_itself() {
    assert_eq!(
        fresh("([{"),
        vec![
            (AnnotationType::Bracket0, 0, 1),
            (AnnotationType::Bracket2, 1, 2),
            (AnnotationType::Bracket1, 2, 3),
        ]
    );
}

#[test]
fn bracket_depths_go_from_line_to_line() {
    let (found, after) = rust("{ (", HighlightState::default());
    assert_eq!(found, vec![(AnnotationType::Bracket1, 0, 1), (AnnotationType::Bracket0, 2, 3)]);
    assert_eq!((after.paren_level, after.brace_level, after.bracket_level), (1, 1, 0));
    let (found, after) = rust("( ) ) }", after);
    assert_eq!(
        found,
        vec![
            (AnnotationType::Bracket1, 0, 1),
            (AnnotationType::Bracket1, 2, 3),
            (AnnotationType::Bracket0, 4, 5),
            (AnnotationType::Bracket1, 6, 7),
        ]
    );
    assert_eq!((after.paren_level, after.brace_level, after.bracket_level), (0, 0, 0));
    // a closing bracket too many stays at depth 0
    let (found, after) = rust(")]", after);
    assert_eq!(found, vec![(AnnotationType::Bracket0, 0, 1), (AnnotationType::Bracket2, 1, 2)]);
    assert_eq!((after.paren_level, after.brace_level, after.bracket_level), (0, 0, 0));
}

#[test]
fn brackets_in_strings_and_comments_do_not_count() {
    let (found, after) = rust("\"(\" ( // )", HighlightState::default());
    assert_eq!(
        found,
        vec![
            (AnnotationType::String, 0, 3),
            (AnnotationType::Comment, 6, 10),
            (AnnotationType::Bracket0, 4, 5),
        ]
    );
    assert_eq!(after.paren_level, 1);
}

#[test]
fn the_description_of_the_language_drives_the_tokenizer() {
    let config = python();
    let (found, after) = tokenize(&config, "def f(x): # int /* (", HighlightState::default());
    let found: Found = found.iter().map(|a| (a.annotation_type, a.start, a.end)).collect();
    assert_eq!(
        found,
        vec![
            (AnnotationType::Comment, 10, 20),
            (AnnotationType::Keyword, 0, 3),
            (AnnotationType::Bracket2, 5, 6),
            (AnnotationType::Bracket2, 7, 8),
        ]
    );
    // without block comment markers no comment stays open
    assert!(!after.in_block_comment);
    assert_eq!(after.paren_level, 0);
}

#[test]
fn the_fourth_pair_of_brackets_is_not_counted() {
    let config = LanguageConfig {
        keywords: vec![],
        primitive_types: vec![],
        line_comment_start: "//".to_string(),
        block_comment_start: "/*".to_string(),
        block_comment_end: "*/".to_string(),
        brackets: vec![
            BracketConfig { open: '(', close: ')', color_offset: 0 },
            BracketConfig { open: '{', close: '}', color_offset: 0 },
            BracketConfig { open: '[', close: ']', color_offset: 0 },
            BracketConfig { open: '<', close: '>', color_offset: 0 },
        ],
    };
    let (found, _) = tokenize(&config, "<[", HighlightState::default());
    let found: Found = found.iter().map(|a| (a.annotation_type, a.start, a.end)).collect();
    assert_eq!(found, vec![(AnnotationType::Bracket0, 1, 2)]);
}

#[test]
fn the_built_in_description_of_rust() {
    let config = default_rust_config();
    assert_eq!(config.keywords, vec!["fn", "let", "mut", "if", "else", "for", "while", "match"]);
    assert_eq!(
        config.primitive_types,
        vec!["i8", "i16", "i32", "i64", "i128", "u8", "u16", "u32", "u64", "u128", "f32", "f64"]
    );
    assert_eq!(config.line_comment_start, "//");
    assert_eq!(config.block_comment_start, "/*");
    assert_eq!(config.block_comment_end, "*/");
    let brackets: Vec<(char, char, usize)> =
        config.brackets.iter().map(|b| (b.open, b.close, b.color_offset)).collect();
    assert_eq!(brackets, vec![('(', ')', 0), ('{', '}', 1), ('[', ']', 2)]);
}

#[test]
fn merge_config_takes_from_the_file_what_the_file_has() {
    let default = default_rust_config();
    let merged = merge_config(&default, None);
    assert_eq!(merged.keywords, default.keywords);
    assert_eq!(merged.block_comment_end, "*/");
    let merged = merge_config(&default, Some(&empty_file()));
    assert_eq!(merged.keywords, default.keywords);
    assert_eq!(merged.brackets.len(), 3);
    let file = LanguageConfigFile {
        keywords: Some(vec!["def".to_string()]),
        line_comment_start: Some("#".to_string()),
        brackets: Some(vec![
            BracketConfigFile { open: "<".to_string(), close: ">>".to_string(), color_offset: Some(3) },
            BracketConfigFile { open: String::new(), close: String::new(), color_offset: None },
        ]),
        ..empty_file()
    };
    let merged = merge_config(&default, Some(&file));
    assert_eq!(merged.keywords, vec!["def"]);
    assert_eq!(merged.primitive_types, default.primitive_types);
    assert_eq!(merged.line_comment_start, "#");
    assert_eq!(merged.block_comment_start, "/*");
    let brackets: Vec<(char, char, usize)> =
        merged.brackets.iter().map(|b| (b.open, b.close, b.color_offset)).collect();
    assert_eq!(brackets, vec![('<', '>', 3), ('(', ')', 0)]);
}

#[test]
fn a_generic_highlighter_needs_a_description() {
    assert!(GenericHighlighter::new("python", None).is_none());
    let file = LanguageConfigFile { keywords: Some(vec!["def".to_string()]), ..empty_file() };
    let highlighter = GenericHighlighter::new("python", Some(&file)).unwrap();
    assert_eq!(highlighter.language_name(), "python");
    let (found, _) = highlighter.highlight_line("def f() // x", 0, HighlightState::default());
    let found: Found = found.iter().map(|a| (a.annotation_type, a.start, a.end)).collect();
    // the usual comment markers hold, and no brackets are described
    assert_eq!(found, vec![(AnnotationType::Comment, 8, 12), (AnnotationType::Keyword, 0, 3)]);
}

#[test]
fn the_registry_finds_highlighters_by_extension() {
    let mut registry = HighlighterRegistry::new();
    assert_eq!(registry.get_highlighter(Some("rs")).unwrap().language_name(), "rust");
    assert!(registry.get_highlighter(None).is_none());
    assert!(registry.get_highlighter(Some("py")).is_none());
    assert!(registry.get_highlighter(Some("")).is_none());
    assert!(registry.get_highlighter(Some("RS")).is_none());
    let highlighter = GenericHighlighter::with_config("python", python());
    registry.register(LanguageHighlighter::Generic(highlighter), vec!["py".to_string(), "pyw".to_string()]);
    assert_eq!(registry.get_highlighter(Some("py")).unwrap().language_name(), "python");
    assert_eq!(registry.get_highlighter(Some("pyw")).unwrap().language_name(), "python");
    assert_eq!(registry.get_highlighter(Some("rs")).unwrap().language_name(), "rust");
    // an extension that is registered again leads to the new highlighter
    let other = GenericHighlighter::with_config("other", python());
    registry.register(LanguageHighlighter::Generic(other), vec!["rs".to_string()]);
    assert_eq!(registry.get_highlighter(Some("rs")).unwrap().language_name(), "other");
    assert_eq!(HighlighterRegistry::default().get_highlighter(Some("rs")).unwrap().language_name(), "rust");
}

#[test]
fn a_language_is_registered_under_its_extensions_or_its_name() {
    let mut registry = HighlighterRegistry::new();
    assert!(!registry.register_language("c", None));
    assert!(registry.get_highlighter(Some("c")).is_none());
    assert!(registry.register_language("c", Some(&empty_file())));
    assert_eq!(registry.get_highlighter(Some("c")).unwrap().language_name(), "c");
    let file = LanguageConfigFile { extensions: Some(vec!["js".to_string(), "jsx".to_string()]), ..empty_file() };
    assert!(registry.register_language("javascript", Some(&file)));
    assert_eq!(registry.get_highlighter(Some("jsx")).unwrap().language_name(), "javascript");
    assert!(registry.get_highlighter(Some("javascript")).is_none());
}

#[test]
fn discovered_languages_of_the_user_go_before_those_of_the_editor() {
    let user = vec![
        ("python".to_string(), LanguageConfigFile { extensions: Some(vec!["py".to_string()]), ..empty_file() }),
        ("c".to_string(), empty_file()),
    ];
    let defaults = vec![
        ("c".to_string(), LanguageConfigFile { extensions: Some(vec!["h".to_string()]), ..empty_file() }),
        ("go".to_string(), empty_file()),
    ];
    let found = discover_language_extensions(&user, &defaults);
    assert_eq!(
        found,
        vec![
            ("python".to_string(), vec!["py".to_string()]),
            ("c".to_string(), vec!["c".to_string()]),
            ("go".to_string(), vec!["go".to_string()]),
        ]
    );
    assert_eq!(discover_language_extensions(&vec![], &vec![]), vec![]);
}

#[test]
fn a_properly_nested_line_ends_as_deep_as_it_starts() {
    let before = HighlightState { paren_level: 1, brace_level: 2, bracket_level: 3, ..HighlightState::default() };
    let (found, after) = rust("f(a[0], {b}) // )", before);
    assert_eq!((after.paren_level, after.brace_level, after.bracket_level), (1, 2, 3));
    let brackets: Found = found
        .into_iter()
        .filter(|f| {
            matches!(
                f.0,
                AnnotationType::Bracket0
                    | AnnotationType::Bracket1
                    | AnnotationType::Bracket2
                    | AnnotationType::Bracket3
            )
        })
        .collect();
    // each pair is shown in the class of the depth at which it opens, counted
    // from the depth in which the line starts, with the offset of the pair
    assert_eq!(
        brackets,
        vec![
            (AnnotationType::Bracket1, 1, 2),
            (AnnotationType::Bracket1, 3, 4),
            (AnnotationType::Bracket1, 5, 6),
            (AnnotationType::Bracket3, 8, 9),
            (AnnotationType::Bracket3, 10, 11),
            (AnnotationType::Bracket1, 11, 12),
        ]
    );
}

#[test]
fn the_offsets_of_characters_count_their_bytes() {
    // one, two, three and four bytes in front of the keyword
    assert_eq!(fresh("a let"), vec![(AnnotationType::Keyword, 2, 5)]);
    assert_eq!(fresh("é let"), vec![(AnnotationType::Keyword, 3, 6)]);
    assert_eq!(fresh("日 let"), vec![(AnnotationType::Keyword, 4, 7)]);
    assert_eq!(fresh("😀 let"), vec![(AnnotationType::Keyword, 5, 8)]);
}
