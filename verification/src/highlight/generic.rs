//! The tokenizer: a state machine over the characters of one line, driven by
//! the description of a language.
//!
//! A line is tokenized in passes: strings, block comments, the line comment,
//! keywords, primitive types, numbers, type names and brackets. Each pass is
//! stated as a function of the characters and of what the passes before it
//! found, in character indices; the annotations of the line are the tokens of
//! all passes in that order, turned into byte ranges.

use vstd::prelude::*;
use vstd::string::*;
use vstd::utf8::*;
use crate::annotation_type::AnnotationType;
use crate::highlight::config::{bare_config, described_by, merge_config, BracketConfig};
use crate::highlight::config::LanguageConfig;
use crate::highlight::config::LanguageConfigFile;
use crate::highlight::highlighter::{annotations_within, HighlightAnnotation, HighlightState};
use crate::highlight::highlighter::{Highlighter, StringType};
use crate::highlight::scan::{byte_offset, char_offsets, find_from, first_occurrence};
use crate::text::chars_vec;
use crate::highlight::scan::{in_any, is_at, is_in_any, is_word_boundary, lemma_byte_offset};
use crate::highlight::scan::{lemma_first_occurrence, stands_at, to_annotation};
use crate::highlight::scan::{to_annotations, token, tokens_within, word_boundary, Token};
use crate::text::{byte_len, capped};
use crate::unicode::{alphanumeric_char, lowercase_char, uppercase_char};


verus! {

/// The quote `q` stands three times in a row at index `i`, with at least one
/// of them not the last character of the line.
pub open spec fn triple_quote(chars: Seq<char>, i: int, q: char) -> bool {
    0 <= i && i + 2 < chars.len() && chars[i] == q && chars[i + 1] == q && chars[i + 2] == q
}

/// The kind of string that opens at index `i`, if one does. Triple quotes go
/// before single ones.
pub open spec fn opens_string(chars: Seq<char>, i: int) -> Option<StringType> {
    if triple_quote(chars, i, '"') {
        Some(StringType::TripleDoubleQuote)
    } else if triple_quote(chars, i, '\'') {
        Some(StringType::TripleSingleQuote)
    } else if chars[i] == '"' {
        Some(StringType::DoubleQuote)
    } else if chars[i] == '\'' {
        Some(StringType::SingleQuote)
    } else if chars[i] == '`' {
        Some(StringType::Backtick)
    } else {
        None
    }
}

/// A string of kind `kind` closes at index `i`.
pub open spec fn closes_string(chars: Seq<char>, i: int, kind: StringType) -> bool {
    match kind {
        StringType::DoubleQuote => chars[i] == '"',
        StringType::SingleQuote => chars[i] == '\'',
        StringType::Backtick => chars[i] == '`',
        StringType::TripleDoubleQuote => triple_quote(chars, i, '"'),
        StringType::TripleSingleQuote => triple_quote(chars, i, '\''),
    }
}

/// The number of characters of the delimiter of a string of kind `kind`.
pub open spec fn delimiter_len(kind: StringType) -> int {
    match kind {
        StringType::TripleDoubleQuote | StringType::TripleSingleQuote => 3,
        _ => 1,
    }
}

/// The strings that close at or after index `i`, the kind of string that is
/// open at the end of the line, and where it started. `open` is the kind of
/// string that is open at `i`, `start` is where it started, and `escaped`
/// says that the character at `i` follows a backslash inside a string.
pub open spec fn string_scan(
    chars: Seq<char>,
    i: int,
    open: Option<StringType>,
    escaped: bool,
    start: int,
) -> (Seq<Token>, Option<StringType>, int)
    decreases chars.len() - i,
{
    if i < 0 || i >= chars.len() {
        (Seq::empty(), open, start)
    } else if escaped {
        string_scan(chars, i + 1, open, false, start)
    } else {
        match open {
            Some(kind) => if chars[i] == '\\' {
                string_scan(chars, i + 1, open, true, start)
            } else if closes_string(chars, i, kind) {
                let end = i + delimiter_len(kind);
                let rest = string_scan(chars, end, None, false, 0);
                (seq![token(AnnotationType::String, start, end)] + rest.0, rest.1, rest.2)
            } else {
                string_scan(chars, i + 1, open, false, start)
            },
            None => match opens_string(chars, i) {
                Some(kind) => string_scan(chars, i + delimiter_len(kind), Some(kind), false, i),
                None => string_scan(chars, i + 1, None, false, 0),
            },
        }
    }
}

/// The string tokens of a line that starts inside a string of kind `open`,
/// or outside any if `open` is `None`: the strings that close on the line,
/// and behind them the string that stays open, to the end of the line.
pub open spec fn string_tokens(chars: Seq<char>, open: Option<StringType>) -> Seq<Token> {
    let found = string_scan(chars, 0, open, false, 0);
    if found.1 is Some {
        found.0.push(token(AnnotationType::String, found.2, chars.len() as int))
    } else {
        found.0
    }
}

/// The kind of string that is open at the end of the line.
pub open spec fn string_after(chars: Seq<char>, open: Option<StringType>) -> Option<StringType> {
    string_scan(chars, 0, open, false, 0).1
}

fn closes_at(chars: &Vec<char>, i: usize, kind: StringType) -> (r: bool)
    requires
        i < chars.len(),
    ensures
        r == closes_string(chars@, i as int, kind),
{
    match kind {
        StringType::DoubleQuote => chars[i] == '"',
        StringType::SingleQuote => chars[i] == '\'',
        StringType::Backtick => chars[i] == '`',
        StringType::TripleDoubleQuote => is_triple_quote(chars, i, '"'),
        StringType::TripleSingleQuote => is_triple_quote(chars, i, '\''),
    }
}

fn is_triple_quote(chars: &Vec<char>, i: usize, q: char) -> (r: bool)
    requires
        i < chars.len(),
    ensures
        r == triple_quote(chars@, i as int, q),
{
    chars.len() - i > 2 && chars[i] == q && chars[i + 1] == q && chars[i + 2] == q
}

fn opens_at(chars: &Vec<char>, i: usize) -> (r: Option<StringType>)
    requires
        i < chars.len(),
    ensures
        r == opens_string(chars@, i as int),
{
    if is_triple_quote(chars, i, '"') {
        Some(StringType::TripleDoubleQuote)
    } else if is_triple_quote(chars, i, '\'') {
        Some(StringType::TripleSingleQuote)
    } else if chars[i] == '"' {
        Some(StringType::DoubleQuote)
    } else if chars[i] == '\'' {
        Some(StringType::SingleQuote)
    } else if chars[i] == '`' {
        Some(StringType::Backtick)
    } else {
        None
    }
}

fn delimiter_width(kind: StringType) -> (r: usize)
    ensures
        r == delimiter_len(kind),
{
    match kind {
        StringType::TripleDoubleQuote | StringType::TripleSingleQuote => 3,
        _ => 1,
    }
}

/// Finds the strings of a line. `open` is the kind of string that the line
/// starts in. Inside a string a backslash takes the next character with it.
/// A string that does not close on the line runs to its end and stays open.
pub fn find_string_ranges(chars: &Vec<char>, open: Option<StringType>) -> (r: (
    Vec<Token>,
    Option<StringType>,
))
    ensures
        r.0@ == string_tokens(chars@, open),
        r.1 == string_after(chars@, open),
        tokens_within(r.0@, chars.len() as int),
{
    let mut ranges: Vec<Token> = Vec::new();
    let mut in_string = open;
    let mut escape_next = false;
    let mut start: usize = 0;
    let mut idx: usize = 0;
    let ghost whole = string_scan(chars@, 0, open, false, 0);
    while idx < chars.len()
        invariant
            idx <= chars.len(),
            start <= idx,
            in_string is None ==> start == 0,
            whole == string_scan(chars@, 0, open, false, 0),
            whole.0 == ranges@ + string_scan(chars@, idx as int, in_string, escape_next, start as int).0,
            whole.1 == string_scan(chars@, idx as int, in_string, escape_next, start as int).1,
            whole.2 == string_scan(chars@, idx as int, in_string, escape_next, start as int).2,
            tokens_within(ranges@, chars.len() as int),
        decreases chars.len() - idx,
    {
        if escape_next {
            escape_next = false;
            idx += 1;
            continue ;
        }
        match in_string {
            Some(kind) => {
                if chars[idx] == '\\' {
                    escape_next = true;
                    idx += 1;
                } else if closes_at(chars, idx, kind) {
                    let end = idx + delimiter_width(kind);
                    let ghost before = ranges@;
                    ranges.push(Token { kind: AnnotationType::String, start, end });
                    proof {
                        let rest = string_scan(chars@, end as int, None, false, 0);
                        assert(whole.0 =~= ranges@ + rest.0);
                    }
                    in_string = None;
                    start = 0;
                    idx = end;
                } else {
                    idx += 1;
                }
            },
            None => {
                match opens_at(chars, idx) {
                    Some(kind) => {
                        start = idx;
                        in_string = Some(kind);
                        idx = idx + delimiter_width(kind);
                    },
                    None => {
                        idx += 1;
                    },
                }
            },
        }
    }
    proof {
        assert(whole.0 =~= ranges@);
    }
    if in_string.is_some() {
        ranges.push(Token { kind: AnnotationType::String, start, end: chars.len() });
    }
    (ranges, in_string)
}

/// The block comments that end at or after index `pos`, and whether one is
/// open at the end of the line. `inside` says that a comment is open at
/// `pos`, and `start` is where it started. An opening marker inside a string
/// opens nothing. Without both markers there are no block comments.
pub open spec fn block_scan(
    chars: Seq<char>,
    open_marker: Seq<char>,
    close_marker: Seq<char>,
    strings: Seq<Token>,
    pos: int,
    inside: bool,
    start: int,
) -> (Seq<Token>, bool)
    decreases chars.len() - pos,
{
    if pos < 0 || pos >= chars.len() || open_marker.len() == 0 || close_marker.len() == 0 {
        (Seq::empty(), inside)
    } else if inside {
        match first_occurrence(chars, close_marker, pos) {
            Some(found) => {
                proof {
                    lemma_first_occurrence(chars, close_marker, pos);
                }
                let end = found + close_marker.len();
                let rest = block_scan(chars, open_marker, close_marker, strings, end, false, 0);
                (seq![token(AnnotationType::Comment, start, end)] + rest.0, rest.1)
            },
            None => (seq![token(AnnotationType::Comment, start, chars.len() as int)], true),
        }
    } else {
        match first_occurrence(chars, open_marker, pos) {
            Some(found) => {
                proof {
                    lemma_first_occurrence(chars, open_marker, pos);
                }
                if in_any(strings, found) {
                    block_scan(chars, open_marker, close_marker, strings, found + 1, false, 0)
                } else {
                    block_scan(
                        chars,
                        open_marker,
                        close_marker,
                        strings,
                        found + open_marker.len(),
                        true,
                        found,
                    )
                }
            },
            None => (Seq::empty(), false),
        }
    }
}

/// Finds the block comments of a line. `inside` says that the line starts in
/// one. A comment that does not close on the line runs to its end and stays
/// open.
pub fn find_block_comments(
    chars: &Vec<char>,
    open_marker: &Vec<char>,
    close_marker: &Vec<char>,
    strings: &Vec<Token>,
    inside: bool,
) -> (r: (Vec<Token>, bool))
    ensures
        (r.0@, r.1) == block_scan(chars@, open_marker@, close_marker@, strings@, 0, inside, 0),
        tokens_within(r.0@, chars.len() as int),
{
    let mut ranges: Vec<Token> = Vec::new();
    let mut in_comment = inside;
    let mut start: usize = 0;
    let mut pos: usize = 0;
    let ghost whole = block_scan(chars@, open_marker@, close_marker@, strings@, 0, inside, 0);
    if open_marker.len() == 0 || close_marker.len() == 0 {
        return (ranges, in_comment);
    }
    while pos < chars.len()
        invariant
            pos <= chars.len(),
            start <= pos,
            !in_comment ==> start == 0,
            open_marker.len() > 0,
            close_marker.len() > 0,
            whole == block_scan(chars@, open_marker@, close_marker@, strings@, 0, inside, 0),
            whole.0 == ranges@ + block_scan(
                chars@,
                open_marker@,
                close_marker@,
                strings@,
                pos as int,
                in_comment,
                start as int,
            ).0,
            whole.1 == block_scan(
                chars@,
                open_marker@,
                close_marker@,
                strings@,
                pos as int,
                in_comment,
                start as int,
            ).1,
            tokens_within(ranges@, chars.len() as int),
        decreases chars.len() - pos,
    {
        if in_comment {
            match find_from(chars, close_marker, pos) {
                Some(found) => {
                    let end = found + close_marker.len();
                    ranges.push(Token { kind: AnnotationType::Comment, start, end });
                    proof {
                        let rest = block_scan(chars@, open_marker@, close_marker@, strings@, end as int, false, 0);
                        assert(whole.0 =~= ranges@ + rest.0);
                    }
                    in_comment = false;
                    start = 0;
                    pos = end;
                },
                None => {
                    ranges.push(Token { kind: AnnotationType::Comment, start, end: chars.len() });
                    assert(whole.0 =~= ranges@);
                    return (ranges, true);
                },
            }
        } else {
            match find_from(chars, open_marker, pos) {
                Some(found) => {
                    if is_in_any(strings, found) {
                        pos = found + 1;
                    } else {
                        in_comment = true;
                        start = found;
                        pos = found + open_marker.len();
                    }
                },
                None => {
                    assert(whole.0 =~= ranges@);
                    return (ranges, false);
                },
            }
        }
    }
    assert(whole.0 =~= ranges@);
    (ranges, in_comment)
}

/// The first index at or after `from` at which the line comment marker
/// stands outside every string and block comment. An empty marker stands
/// nowhere.
pub open spec fn line_comment_from(
    chars: Seq<char>,
    marker: Seq<char>,
    strings: Seq<Token>,
    blocks: Seq<Token>,
    from: int,
) -> Option<int>
    decreases chars.len() - from + 1,
{
    if marker.len() == 0 {
        None
    } else {
        match first_occurrence(chars, marker, from) {
            Some(found) => {
                proof {
                    lemma_first_occurrence(chars, marker, from);
                }
                if !in_any(strings, found) && !in_any(blocks, found) {
                    Some(found)
                } else {
                    line_comment_from(chars, marker, strings, blocks, found + 1)
                }
            },
            None => None,
        }
    }
}

/// The line comment: from where its marker first stands outside strings and
/// block comments to the end of the line.
pub open spec fn line_comment_tokens(
    chars: Seq<char>,
    marker: Seq<char>,
    strings: Seq<Token>,
    blocks: Seq<Token>,
) -> Seq<Token> {
    match line_comment_from(chars, marker, strings, blocks, 0) {
        Some(found) => seq![token(AnnotationType::Comment, found, chars.len() as int)],
        None => Seq::empty(),
    }
}

/// Finds the line comment of a line, if it has one.
pub fn find_line_comment(
    chars: &Vec<char>,
    marker: &Vec<char>,
    strings: &Vec<Token>,
    blocks: &Vec<Token>,
) -> (r: Vec<Token>)
    ensures
        r@ == line_comment_tokens(chars@, marker@, strings@, blocks@),
        tokens_within(r@, chars.len() as int),
{
    let mut r: Vec<Token> = Vec::new();
    if marker.len() == 0 {
        return r;
    }
    let mut from: usize = 0;
    loop
        invariant
            marker.len() > 0,
            r@.len() == 0,
            from <= chars.len(),
            line_comment_from(chars@, marker@, strings@, blocks@, 0) == line_comment_from(
                chars@,
                marker@,
                strings@,
                blocks@,
                from as int,
            ),
        decreases chars.len() - from,
    {
        match find_from(chars, marker, from) {
            Some(found) => {
                if !is_in_any(strings, found) && !is_in_any(blocks, found) {
                    r.push(Token { kind: AnnotationType::Comment, start: found, end: chars.len() });
                    return r;
                }
                from = found + 1;
            },
            None => {
                return r;
            },
        }
    }
}

/// `word` is a word of its own at index `p`: it stands there, is not the
/// capitalised tail of a camel-case name, and what stands before and behind
/// it ends a word.
pub open spec fn keyword_at(chars: Seq<char>, word: Seq<char>, p: int) -> bool {
    &&& stands_at(chars, word, p)
    &&& !(word.len() > 0 && p > 0 && uppercase_char(word[0]) && lowercase_char(chars[p - 1]))
    &&& (p == 0 || word_boundary(chars[p - 1]))
    &&& (p + word.len() >= chars.len() || word_boundary(chars[p + word.len()]))
}

/// The places before index `m` at which `word` is a word of its own outside
/// strings and comments, from the left.
pub open spec fn word_hits(
    chars: Seq<char>,
    word: Seq<char>,
    kind: AnnotationType,
    strings: Seq<Token>,
    comments: Seq<Token>,
    m: int,
) -> Seq<Token>
    decreases m,
{
    if m <= 0 {
        Seq::empty()
    } else {
        let rest = word_hits(chars, word, kind, strings, comments, m - 1);
        let p = m - 1;
        if keyword_at(chars, word, p) && !in_any(strings, p) && !in_any(comments, p) {
            rest.push(token(kind, p, p + word.len()))
        } else {
            rest
        }
    }
}

/// The hits of the first `w` of `words`, word after word.
pub open spec fn words_hits(
    chars: Seq<char>,
    words: Seq<String>,
    kind: AnnotationType,
    strings: Seq<Token>,
    comments: Seq<Token>,
    w: int,
) -> Seq<Token>
    decreases w,
{
    if w <= 0 || w > words.len() {
        Seq::empty()
    } else {
        words_hits(chars, words, kind, strings, comments, w - 1) + word_hits(
            chars,
            words[w - 1]@,
            kind,
            strings,
            comments,
            chars.len() as int,
        )
    }
}

/// Whether `keyword` is a word of its own at index `pos` of `line`.
pub fn find_keyword_at(line: &Vec<char>, keyword: &Vec<char>, pos: usize) -> (r: bool)
    ensures
        r == keyword_at(line@, keyword@, pos as int),
{
    if !is_at(line, keyword, pos) {
        return false;
    }
    let len = line.len();
    let after_pos = pos + keyword.len();
    if pos > 0 {
        let prev = line[pos - 1];
        if keyword.len() > 0 && is_camel_case_boundary(prev, keyword[0]) {
            return false;
        }
        if !is_word_boundary(prev) {
            return false;
        }
    }
    after_pos >= len || is_word_boundary(line[after_pos])
}

/// Whether a lower-case letter is followed by an upper-case one.
pub fn is_camel_case_boundary(prev_ch: char, next_ch: char) -> (r: bool)
    ensures
        r == (lowercase_char(prev_ch) && uppercase_char(next_ch)),
{
    prev_ch.is_lowercase() && next_ch.is_uppercase()
}

/// Finds the places at which one of `words` is a word of its own outside
/// strings and comments.
pub fn find_words(
    chars: &Vec<char>,
    words: &Vec<String>,
    kind: AnnotationType,
    strings: &Vec<Token>,
    comments: &Vec<Token>,
) -> (r: Vec<Token>)
    ensures
        r@ == words_hits(chars@, words@, kind, strings@, comments@, words.len() as int),
        tokens_within(r@, chars.len() as int),
{
    let mut r: Vec<Token> = Vec::new();
    let mut w: usize = 0;
    while w < words.len()
        invariant
            w <= words.len(),
            r@ == words_hits(chars@, words@, kind, strings@, comments@, w as int),
            tokens_within(r@, chars.len() as int),
        decreases words.len() - w,
    {
        let word = chars_vec(words[w].as_str());
        let ghost before = r@;
        let mut p: usize = 0;
        while p < chars.len()
            invariant
                p <= chars.len(),
                w < words.len(),
                word@ == words@[w as int]@,
                before == words_hits(chars@, words@, kind, strings@, comments@, w as int),
                r@ == before + word_hits(chars@, word@, kind, strings@, comments@, p as int),
                tokens_within(r@, chars.len() as int),
            decreases chars.len() - p,
        {
            if find_keyword_at(chars, &word, p) && !is_in_any(strings, p) && !is_in_any(comments, p) {
                r.push(Token { kind, start: p, end: p + word.len() });
            }
            p += 1;
            assert(r@ =~= before + word_hits(chars@, word@, kind, strings@, comments@, p as int));
        }
        w += 1;
    }
    r
}

/// `c` may follow the first digit of a number.
pub open spec fn number_char(c: char) -> bool {
    alphanumeric_char(c) || c == '_' || c == '.'
}

/// The first index at or after `i` whose character may not follow the first
/// digit of a number; the length of the line if there is none.
pub open spec fn number_end(chars: Seq<char>, i: int) -> int
    decreases chars.len() - i,
{
    if i < 0 || i >= chars.len() || !number_char(chars[i]) {
        i
    } else {
        number_end(chars, i + 1)
    }
}

/// The first index at or after `i` whose character ends a word; the length
/// of the line if there is none.
pub open spec fn word_end(chars: Seq<char>, i: int) -> int
    decreases chars.len() - i,
{
    if i < 0 || i >= chars.len() || word_boundary(chars[i]) {
        i
    } else {
        word_end(chars, i + 1)
    }
}

/// A run ends at or behind the index at which it is measured, and inside the
/// line.
pub proof fn lemma_run_end(chars: Seq<char>, i: int)
    requires
        0 <= i <= chars.len(),
    ensures
        i <= number_end(chars, i) <= chars.len(),
        i <= word_end(chars, i) <= chars.len(),
    decreases chars.len() - i,
{
    if i < chars.len() {
        lemma_run_end(chars, i + 1);
    }
}

/// `c` is one of the digits `0` to `9`.
pub open spec fn digit_char(c: char) -> bool {
    '0' <= c <= '9'
}

/// The numbers that start at or after index `i`: each starts with a digit
/// outside strings and comments and takes the letters, digits, `_` and `.`
/// that follow.
pub open spec fn number_scan(chars: Seq<char>, strings: Seq<Token>, comments: Seq<Token>, i: int) -> Seq<
    Token,
>
    decreases chars.len() - i,
{
    if i < 0 || i >= chars.len() {
        Seq::empty()
    } else if in_any(strings, i) || in_any(comments, i) || !digit_char(chars[i]) {
        number_scan(chars, strings, comments, i + 1)
    } else {
        proof {
            lemma_run_end(chars, i + 1);
        }
        let end = number_end(chars, i + 1);
        seq![token(AnnotationType::Number, i, end)] + number_scan(chars, strings, comments, end)
    }
}

/// Finds the numbers of a line.
pub fn find_number_ranges(chars: &Vec<char>, strings: &Vec<Token>, comments: &Vec<Token>) -> (r: Vec<
    Token,
>)
    ensures
        r@ == number_scan(chars@, strings@, comments@, 0),
        tokens_within(r@, chars.len() as int),
{
    let mut r: Vec<Token> = Vec::new();
    let mut i: usize = 0;
    let ghost whole = number_scan(chars@, strings@, comments@, 0);
    while i < chars.len()
        invariant
            i <= chars.len(),
            whole == r@ + number_scan(chars@, strings@, comments@, i as int),
            tokens_within(r@, chars.len() as int),
        decreases chars.len() - i,
    {
        let c = chars[i];
        if is_in_any(strings, i) || is_in_any(comments, i) || !('0' <= c && c <= '9') {
            i += 1;
        } else {
            let mut end = i + 1;
            while end < chars.len() && is_number_char(chars[end])
                invariant
                    i < end <= chars.len(),
                    number_end(chars@, end as int) == number_end(chars@, i + 1),
                decreases chars.len() - end,
            {
                end += 1;
            }
            r.push(Token { kind: AnnotationType::Number, start: i, end });
            assert(whole =~= r@ + number_scan(chars@, strings@, comments@, end as int));
            i = end;
        }
    }
    assert(whole =~= r@);
    r
}

fn is_number_char(c: char) -> (r: bool)
    ensures
        r == number_char(c),
{
    c.is_alphanumeric() || c == '_' || c == '.'
}

/// One of the first `n` of `words` is `word`.
pub open spec fn listed(words: Seq<String>, word: Seq<char>, n: int) -> bool
    decreases n,
{
    if n <= 0 || n > words.len() {
        false
    } else {
        words[n - 1]@ == word || listed(words, word, n - 1)
    }
}

/// The type names that start at or after index `i`: each starts with an
/// upper-case letter that begins a word outside strings and comments, takes
/// the letters, digits and `_` that follow, and is neither a keyword nor a
/// primitive type.
pub open spec fn type_scan(
    chars: Seq<char>,
    keywords: Seq<String>,
    primitive_types: Seq<String>,
    strings: Seq<Token>,
    comments: Seq<Token>,
    i: int,
) -> Seq<Token>
    decreases chars.len() - i,
{
    if i < 0 || i >= chars.len() {
        Seq::empty()
    } else if in_any(strings, i) || in_any(comments, i) || !uppercase_char(chars[i]) || (i > 0
        && !word_boundary(chars[i - 1])) {
        type_scan(chars, keywords, primitive_types, strings, comments, i + 1)
    } else {
        proof {
            lemma_run_end(chars, i + 1);
        }
        let end = word_end(chars, i + 1);
        let rest = type_scan(chars, keywords, primitive_types, strings, comments, end);
        let word = chars.subrange(i, end);
        if listed(keywords, word, keywords.len() as int) || listed(
            primitive_types,
            word,
            primitive_types.len() as int,
        ) {
            rest
        } else {
            seq![token(AnnotationType::Type, i, end)] + rest
        }
    }
}

fn is_listed(words: &Vec<String>, chars: &Vec<char>, start: usize, end: usize) -> (r: bool)
    requires
        start <= end <= chars.len(),
    ensures
        r == listed(words@, chars@.subrange(start as int, end as int), words.len() as int),
{
    let mut k: usize = 0;
    let ghost word = chars@.subrange(start as int, end as int);
    while k < words.len()
        invariant
            k <= words.len(),
            start <= end <= chars.len(),
            word == chars@.subrange(start as int, end as int),
            !listed(words@, word, k as int),
        decreases words.len() - k,
    {
        let candidate = chars_vec(words[k].as_str());
        if candidate.len() == end - start && is_at(chars, &candidate, start) {
            proof {
                lemma_listed_from(words@, word, k + 1, words.len() as int);
            }
            return true;
        }
        k += 1;
    }
    false
}

/// A word found among the first `k` is found among the first `n >= k`.
pub proof fn lemma_listed_from(words: Seq<String>, word: Seq<char>, k: int, n: int)
    requires
        0 <= k <= n <= words.len(),
        listed(words, word, k),
    ensures
        listed(words, word, n),
    decreases n - k,
{
    if k < n {
        lemma_listed_from(words, word, k, n - 1);
    }
}

/// Finds the type names of a line.
pub fn find_type_ranges(
    chars: &Vec<char>,
    keywords: &Vec<String>,
    primitive_types: &Vec<String>,
    strings: &Vec<Token>,
    comments: &Vec<Token>,
) -> (r: Vec<Token>)
    ensures
        r@ == type_scan(chars@, keywords@, primitive_types@, strings@, comments@, 0),
        tokens_within(r@, chars.len() as int),
{
    let mut r: Vec<Token> = Vec::new();
    let mut i: usize = 0;
    let ghost whole = type_scan(chars@, keywords@, primitive_types@, strings@, comments@, 0);
    while i < chars.len()
        invariant
            i <= chars.len(),
            whole == r@ + type_scan(chars@, keywords@, primitive_types@, strings@, comments@, i as int),
            tokens_within(r@, chars.len() as int),
        decreases chars.len() - i,
    {
        if is_in_any(strings, i) || is_in_any(comments, i) || !chars[i].is_uppercase() || (i > 0
            && !is_word_boundary(chars[i - 1])) {
            i += 1;
        } else {
            let mut end = i + 1;
            while end < chars.len() && !is_word_boundary(chars[end])
                invariant
                    i < end <= chars.len(),
                    word_end(chars@, end as int) == word_end(chars@, i + 1),
                decreases chars.len() - end,
            {
                end += 1;
            }
            if !is_listed(keywords, chars, i, end) && !is_listed(primitive_types, chars, i, end) {
                r.push(Token { kind: AnnotationType::Type, start: i, end });
            }
            assert(whole =~= r@ + type_scan(
                chars@,
                keywords@,
                primitive_types@,
                strings@,
                comments@,
                end as int,
            ));
            i = end;
        }
    }
    assert(whole =~= r@);
    r
}

/// The nesting depth of the `k`-th pair of brackets.
pub open spec fn level_of(state: HighlightState, k: int) -> int {
    if k == 0 {
        state.paren_level as int
    } else if k == 1 {
        state.brace_level as int
    } else {
        state.bracket_level as int
    }
}

/// `state` with the nesting depth of the `k`-th pair of brackets set to
/// `level`.
pub open spec fn with_level(state: HighlightState, k: int, level: int) -> HighlightState {
    if k == 0 {
        HighlightState { paren_level: level as usize, ..state }
    } else if k == 1 {
        HighlightState { brace_level: level as usize, ..state }
    } else {
        HighlightState { bracket_level: level as usize, ..state }
    }
}

/// The colour class of a bracket at nesting depth `level` of a pair with
/// colour offset `offset`.
pub open spec fn bracket_class(level: int, offset: int) -> AnnotationType {
    let class = (level + offset) % 4;
    if class == 0 {
        AnnotationType::Bracket0
    } else if class == 1 {
        AnnotationType::Bracket1
    } else if class == 2 {
        AnnotationType::Bracket2
    } else {
        AnnotationType::Bracket3
    }
}

/// What the character `c` does as a bracket, looking at the pairs from the
/// `k`-th on: its colour class and the state behind it. An opening bracket
/// takes the class of the depth before it and deepens the nesting; a closing
/// bracket first goes up a level, not above 0, and takes the class of that
/// depth, so that it matches its opening bracket. Only the first three pairs
/// count, since the state has three depths.
pub open spec fn bracket_step(brackets: Seq<BracketConfig>, c: char, state: HighlightState, k: int) -> Option<
    (AnnotationType, HighlightState),
>
    decreases 3 - k,
{
    if k < 0 || k >= 3 || k >= brackets.len() {
        None
    } else if c == brackets[k].open {
        let level = level_of(state, k);
        Some(
            (
                bracket_class(level, brackets[k].color_offset as int),
                with_level(state, k, capped(level + 1)),
            ),
        )
    } else if c == brackets[k].close {
        let level = if level_of(state, k) > 0 {
            level_of(state, k) - 1
        } else {
            0
        };
        Some((bracket_class(level, brackets[k].color_offset as int), with_level(state, k, level)))
    } else {
        bracket_step(brackets, c, state, k + 1)
    }
}

/// The brackets at or after index `i` outside strings and comments, and the
/// state behind the line.
pub open spec fn bracket_scan(
    chars: Seq<char>,
    brackets: Seq<BracketConfig>,
    strings: Seq<Token>,
    comments: Seq<Token>,
    i: int,
    state: HighlightState,
) -> (Seq<Token>, HighlightState)
    decreases chars.len() - i,
{
    if i < 0 || i >= chars.len() {
        (Seq::empty(), state)
    } else if in_any(strings, i) || in_any(comments, i) {
        bracket_scan(chars, brackets, strings, comments, i + 1, state)
    } else {
        match bracket_step(brackets, chars[i], state, 0) {
            Some((kind, next)) => {
                let rest = bracket_scan(chars, brackets, strings, comments, i + 1, next);
                (seq![token(kind, i, i + 1)] + rest.0, rest.1)
            },
            None => bracket_scan(chars, brackets, strings, comments, i + 1, state),
        }
    }
}

fn class_of(level: usize, offset: usize) -> (r: AnnotationType)
    ensures
        r == bracket_class(level as int, offset as int),
{
    let class = (level % 4 + offset % 4) % 4;
    assert(class == (level + offset) % 4) by (nonlinear_arith)
        requires
            class == (level % 4 + offset % 4) % 4,
    ;
    if class == 0 {
        AnnotationType::Bracket0
    } else if class == 1 {
        AnnotationType::Bracket1
    } else if class == 2 {
        AnnotationType::Bracket2
    } else {
        AnnotationType::Bracket3
    }
}

fn get_level(state: &HighlightState, k: usize) -> (r: usize)
    ensures
        r == level_of(*state, k as int),
{
    if k == 0 {
        state.paren_level
    } else if k == 1 {
        state.brace_level
    } else {
        state.bracket_level
    }
}

fn set_level(state: HighlightState, k: usize, level: usize) -> (r: HighlightState)
    ensures
        r == with_level(state, k as int, level as int),
{
    if k == 0 {
        HighlightState { paren_level: level, ..state }
    } else if k == 1 {
        HighlightState { brace_level: level, ..state }
    } else {
        HighlightState { bracket_level: level, ..state }
    }
}

fn step_bracket(brackets: &Vec<BracketConfig>, c: char, state: HighlightState) -> (r: Option<
    (AnnotationType, HighlightState),
>)
    ensures
        r == bracket_step(brackets@, c, state, 0),
{
    let mut k: usize = 0;
    while k < 3 && k < brackets.len()
        invariant
            k <= 3,
            bracket_step(brackets@, c, state, 0) == bracket_step(brackets@, c, state, k as int),
        decreases 3 - k,
    {
        let pair = brackets[k];
        if c == pair.open {
            let level = get_level(&state, k);
            return Some((class_of(level, pair.color_offset), set_level(state, k, level.saturating_add(1))));
        } else if c == pair.close {
            let level = get_level(&state, k).saturating_sub(1);
            return Some((class_of(level, pair.color_offset), set_level(state, k, level)));
        }
        k += 1;
    }
    None
}

/// Finds the brackets of a line and counts their nesting on from `state`.
pub fn find_brackets(
    chars: &Vec<char>,
    brackets: &Vec<BracketConfig>,
    strings: &Vec<Token>,
    comments: &Vec<Token>,
    state: HighlightState,
) -> (r: (Vec<Token>, HighlightState))
    ensures
        (r.0@, r.1) == bracket_scan(chars@, brackets@, strings@, comments@, 0, state),
        tokens_within(r.0@, chars.len() as int),
{
    let mut tokens: Vec<Token> = Vec::new();
    let mut current = state;
    let mut i: usize = 0;
    let ghost whole = bracket_scan(chars@, brackets@, strings@, comments@, 0, state);
    while i < chars.len()
        invariant
            i <= chars.len(),
            whole.0 == tokens@ + bracket_scan(chars@, brackets@, strings@, comments@, i as int, current).0,
            whole.1 == bracket_scan(chars@, brackets@, strings@, comments@, i as int, current).1,
            tokens_within(tokens@, chars.len() as int),
        decreases chars.len() - i,
    {
        if !is_in_any(strings, i) && !is_in_any(comments, i) {
            match step_bracket(brackets, chars[i], current) {
                Some((kind, next)) => {
                    tokens.push(Token { kind, start: i, end: i + 1 });
                    assert(whole.0 =~= tokens@ + bracket_scan(
                        chars@,
                        brackets@,
                        strings@,
                        comments@,
                        i + 1,
                        next,
                    ).0);
                    current = next;
                },
                None => {},
            }
        }
        i += 1;
    }
    assert(whole.0 =~= tokens@);
    (tokens, current)
}

/// The tokens of a line, pass after pass, and the state behind it.
///
/// Strings come first and are found without regard to comments. Block
/// comments and the line comment are found outside strings. Keywords,
/// primitive types, numbers, type names and brackets are found where they
/// start outside strings and comments.
pub open spec fn line_tokens(config: LanguageConfig, chars: Seq<char>, state: HighlightState) -> (
    Seq<Token>,
    HighlightState,
) {
    let strings = string_tokens(chars, state.in_string);
    let blocks = block_scan(
        chars,
        config.block_comment_start@,
        config.block_comment_end@,
        strings,
        0,
        state.in_block_comment,
        0,
    );
    let comments = blocks.0 + line_comment_tokens(chars, config.line_comment_start@, strings, blocks.0);
    let keywords = words_hits(
        chars,
        config.keywords@,
        AnnotationType::Keyword,
        strings,
        comments,
        config.keywords@.len() as int,
    );
    let primitive_types = words_hits(
        chars,
        config.primitive_types@,
        AnnotationType::PrimitiveType,
        strings,
        comments,
        config.primitive_types@.len() as int,
    );
    let numbers = number_scan(chars, strings, comments, 0);
    let types = type_scan(chars, config.keywords@, config.primitive_types@, strings, comments, 0);
    let brackets = bracket_scan(chars, config.brackets@, strings, comments, 0, state);
    (
        strings + comments + keywords + primitive_types + numbers + types + brackets.0,
        HighlightState {
            in_block_comment: blocks.1,
            in_string: string_after(chars, state.in_string),
            ..brackets.1
        },
    )
}

/// The annotations of a line and the state behind it: the tokens of
/// `line_tokens`, each over the bytes of its characters.
pub open spec fn line_annotations(config: LanguageConfig, chars: Seq<char>, state: HighlightState) -> (
    Seq<HighlightAnnotation>,
    HighlightState,
) {
    let found = line_tokens(config, chars, state);
    (to_annotations(chars, found.0), found.1)
}

fn extend(all: &mut Vec<Token>, part: &Vec<Token>)
    ensures
        final(all)@ == old(all)@ + part@,
{
    let mut i: usize = 0;
    while i < part.len()
        invariant
            i <= part.len(),
            all@ == old(all)@ + part@.take(i as int),
        decreases part.len() - i,
    {
        all.push(part[i]);
        assert(all@ =~= old(all)@ + part@.take(i + 1));
        i += 1;
    }
    assert(part@.take(part.len() as int) =~= part@);
}

/// Tokenizes `line` as `config` describes the language, on from `state`.
pub fn tokenize(config: &LanguageConfig, line: &str, state: HighlightState) -> (r: (
    Vec<HighlightAnnotation>,
    HighlightState,
))
    ensures
        (r.0@, r.1) == line_annotations(*config, line@, state),
        annotations_within(r.0@, line.spec_bytes().len() as int),
{
    let chars = chars_vec(line);
    let len = byte_len(line);
    let (strings, in_string) = find_string_ranges(&chars, state.in_string);
    let open_marker = chars_vec(config.block_comment_start.as_str());
    let close_marker = chars_vec(config.block_comment_end.as_str());
    let (blocks, in_block_comment) = find_block_comments(
        &chars,
        &open_marker,
        &close_marker,
        &strings,
        state.in_block_comment,
    );
    let line_marker = chars_vec(config.line_comment_start.as_str());
    let line_comment = find_line_comment(&chars, &line_marker, &strings, &blocks);
    let mut comments: Vec<Token> = Vec::new();
    extend(&mut comments, &blocks);
    extend(&mut comments, &line_comment);
    assert(comments@ =~= blocks@ + line_comment@);
    let keywords = find_words(&chars, &config.keywords, AnnotationType::Keyword, &strings, &comments);
    let primitive_types = find_words(
        &chars,
        &config.primitive_types,
        AnnotationType::PrimitiveType,
        &strings,
        &comments,
    );
    let numbers = find_number_ranges(&chars, &strings, &comments);
    let types = find_type_ranges(&chars, &config.keywords, &config.primitive_types, &strings, &comments);
    let (brackets, after) = find_brackets(&chars, &config.brackets, &strings, &comments, state);
    let mut tokens: Vec<Token> = Vec::new();
    extend(&mut tokens, &strings);
    extend(&mut tokens, &comments);
    extend(&mut tokens, &keywords);
    extend(&mut tokens, &primitive_types);
    extend(&mut tokens, &numbers);
    extend(&mut tokens, &types);
    extend(&mut tokens, &brackets);
    assert(tokens@ =~= line_tokens(*config, line@, state).0);
    let offsets = char_offsets(&chars);
    let mut annotations: Vec<HighlightAnnotation> = Vec::new();
    let mut i: usize = 0;
    while i < tokens.len()
        invariant
            i <= tokens.len(),
            chars@ == line@,
            len == encode_utf8(chars@).len(),
            tokens_within(tokens@, chars.len() as int),
            offsets.len() == chars.len() + 1,
            forall|k: int| 0 <= k <= chars.len() ==> #[trigger] offsets[k] == byte_offset(chars@, k),
            annotations.len() == i,
            forall|k: int| 0 <= k < i ==> #[trigger] annotations@[k] == to_annotation(chars@, tokens@[k]),
            annotations_within(annotations@, len as int),
        decreases tokens.len() - i,
    {
        let t = tokens[i];
        proof {
            lemma_byte_offset(chars@, t.start as int, t.end as int);
        }
        annotations.push(
            HighlightAnnotation { annotation_type: t.kind, start: offsets[t.start], end: offsets[t.end] },
        );
        i += 1;
    }
    assert(annotations@ =~= to_annotations(chars@, tokens@));
    (
        annotations,
        HighlightState {
            in_block_comment,
            in_string,
            paren_level: after.paren_level,
            brace_level: after.brace_level,
            bracket_level: after.bracket_level,
        },
    )
}

/// A highlighter for a language that a description gives.
pub struct GenericHighlighter {
    config: LanguageConfig,
    language_name: String,
}

impl GenericHighlighter {
    /// The description of the language.
    pub closed spec fn config(&self) -> LanguageConfig {
        self.config
    }

    /// The highlighter for `language`, as the description read from its file
    /// says, laid over the usual comment markers. Without a description there
    /// is no highlighter.
    pub fn new(language: &str, file_config: Option<&LanguageConfigFile>) -> (r: Option<Self>)
        ensures
            r is Some <==> file_config is Some,
            r is Some ==> r->0.name() == language@ && described_by(*file_config->0, r->0.config()),
    {
        match file_config {
            Some(file) => {
                let default = bare_config();
                let config = merge_config(&default, Some(file));
                Some(Self { config, language_name: language.to_owned() })
            },
            None => None,
        }
    }

    /// The highlighter for `language` with the description `config`.
    pub fn with_config(language: &str, config: LanguageConfig) -> (r: Self)
        ensures
            r.config() == config,
            r.name() == language@,
    {
        Self { config, language_name: language.to_owned() }
    }
}

impl Highlighter for GenericHighlighter {
    open spec fn highlighted(&self, line: Seq<char>, state: HighlightState) -> (
        Seq<HighlightAnnotation>,
        HighlightState,
    ) {
        line_annotations(self.config(), line, state)
    }

    closed spec fn name(&self) -> Seq<char> {
        self.language_name@
    }

    fn highlight_line(&self, line: &str, line_idx: usize, state: HighlightState) -> (r: (
        Vec<HighlightAnnotation>,
        HighlightState,
    )) {
        tokenize(&self.config, line, state)
    }

    fn language_name(&self) -> (r: &str) {
        self.language_name.as_str()
    }
}

} // verus!
