//! The description of a language that drives the tokenizer, and how a
//! description read from a file is laid over the built-in one.

use vstd::prelude::*;
use vstd::string::*;
use crate::text::chars_vec;
use crate::text::str_eq;

verus! {

/// A pair of brackets and the colour class of its outermost level.
#[derive(Clone, Copy, Debug)]
pub struct BracketConfig {
    pub open: char,
    pub close: char,
    pub color_offset: usize,
}

/// The words and markers of a language.
#[derive(Debug)]
pub struct LanguageConfig {
    pub keywords: Vec<String>,
    pub primitive_types: Vec<String>,
    pub line_comment_start: String,
    pub block_comment_start: String,
    pub block_comment_end: String,
    pub brackets: Vec<BracketConfig>,
}

/// A pair of brackets as a file gives it.
#[derive(Debug)]
pub struct BracketConfigFile {
    pub open: String,
    pub close: String,
    pub color_offset: Option<usize>,
}

/// The description of a language as a file gives it: every entry may be
/// missing.
#[derive(Debug)]
pub struct LanguageConfigFile {
    pub keywords: Option<Vec<String>>,
    pub primitive_types: Option<Vec<String>>,
    pub line_comment_start: Option<String>,
    pub block_comment_start: Option<String>,
    pub block_comment_end: Option<String>,
    pub brackets: Option<Vec<BracketConfigFile>>,
    pub extensions: Option<Vec<String>>,
}

/// The keywords of the built-in description of Rust.
pub open spec fn rust_keywords() -> Seq<Seq<char>> {
    seq!["fn"@, "let"@, "mut"@, "if"@, "else"@, "for"@, "while"@, "match"@]
}

/// The primitive types of the built-in description of Rust.
pub open spec fn rust_primitive_types() -> Seq<Seq<char>> {
    seq![
        "i8"@,
        "i16"@,
        "i32"@,
        "i64"@,
        "i128"@,
        "u8"@,
        "u16"@,
        "u32"@,
        "u64"@,
        "u128"@,
        "f32"@,
        "f64"@,
    ]
}

/// The brackets of the built-in description of Rust.
pub open spec fn rust_brackets() -> Seq<BracketConfig> {
    seq![
        BracketConfig { open: '(', close: ')', color_offset: 0 },
        BracketConfig { open: '{', close: '}', color_offset: 1 },
        BracketConfig { open: '[', close: ']', color_offset: 2 },
    ]
}

/// The texts of `words`.
pub open spec fn texts(words: Seq<String>) -> Seq<Seq<char>> {
    Seq::new(words.len(), |i: int| words[i]@)
}

/// `config` is the built-in description of Rust.
pub open spec fn is_rust_config(config: LanguageConfig) -> bool {
    &&& texts(config.keywords@) == rust_keywords()
    &&& texts(config.primitive_types@) == rust_primitive_types()
    &&& config.line_comment_start@ == "//"@
    &&& config.block_comment_start@ == "/*"@
    &&& config.block_comment_end@ == "*/"@
    &&& config.brackets@ == rust_brackets()
}

/// The description of Rust that is used where no file gives one.
pub fn default_rust_config() -> (config: LanguageConfig)
    ensures
        is_rust_config(config),
{
    hardcoded_rust_config()
}

fn hardcoded_rust_config() -> (config: LanguageConfig)
    ensures
        is_rust_config(config),
{
    let config = LanguageConfig {
        keywords: vec![
            "fn".to_owned(),
            "let".to_owned(),
            "mut".to_owned(),
            "if".to_owned(),
            "else".to_owned(),
            "for".to_owned(),
            "while".to_owned(),
            "match".to_owned(),
        ],
        primitive_types: vec![
            "i8".to_owned(),
            "i16".to_owned(),
            "i32".to_owned(),
            "i64".to_owned(),
            "i128".to_owned(),
            "u8".to_owned(),
            "u16".to_owned(),
            "u32".to_owned(),
            "u64".to_owned(),
            "u128".to_owned(),
            "f32".to_owned(),
            "f64".to_owned(),
        ],
        line_comment_start: "//".to_owned(),
        block_comment_start: "/*".to_owned(),
        block_comment_end: "*/".to_owned(),
        brackets: vec![
            BracketConfig { open: '(', close: ')', color_offset: 0 },
            BracketConfig { open: '{', close: '}', color_offset: 1 },
            BracketConfig { open: '[', close: ']', color_offset: 2 },
        ],
    };
    assert(texts(config.keywords@) =~= rust_keywords());
    assert(texts(config.primitive_types@) =~= rust_primitive_types());
    assert(config.brackets@ =~= rust_brackets());
    config
}

/// `config` knows nothing of a language but the usual comment markers.
pub open spec fn is_bare_config(config: LanguageConfig) -> bool {
    &&& config.keywords@ == Seq::<String>::empty()
    &&& config.primitive_types@ == Seq::<String>::empty()
    &&& config.line_comment_start@ == "//"@
    &&& config.block_comment_start@ == "/*"@
    &&& config.block_comment_end@ == "*/"@
    &&& config.brackets@ == Seq::<BracketConfig>::empty()
}

/// The description of a language of which nothing is known but the usual
/// comment markers.
pub fn bare_config() -> (config: LanguageConfig)
    ensures
        is_bare_config(config),
{
    LanguageConfig {
        keywords: Vec::new(),
        primitive_types: Vec::new(),
        line_comment_start: "//".to_owned(),
        block_comment_start: "/*".to_owned(),
        block_comment_end: "*/".to_owned(),
        brackets: Vec::new(),
    }
}

/// `r` is what `file` describes, with the usual comment markers where the
/// file names none, and without words or brackets where the file lists none.
pub open spec fn described_by(file: LanguageConfigFile, r: LanguageConfig) -> bool {
    &&& r.keywords@ == match file.keywords {
        Some(words) => words@,
        None => Seq::<String>::empty(),
    }
    &&& r.primitive_types@ == match file.primitive_types {
        Some(words) => words@,
        None => Seq::<String>::empty(),
    }
    &&& r.line_comment_start@ == match file.line_comment_start {
        Some(s) => s@,
        None => "//"@,
    }
    &&& r.block_comment_start@ == match file.block_comment_start {
        Some(s) => s@,
        None => "/*"@,
    }
    &&& r.block_comment_end@ == match file.block_comment_end {
        Some(s) => s@,
        None => "*/"@,
    }
    &&& r.brackets@ == merged_brackets(Seq::<BracketConfig>::empty(), file.brackets)
}

/// A copy of `words`.
pub fn clone_strings(words: &Vec<String>) -> (r: Vec<String>)
    ensures
        r@ == words@,
{
    let mut r: Vec<String> = Vec::new();
    let mut i: usize = 0;
    while i < words.len()
        invariant
            i <= words.len(),
            r@ == words@.take(i as int),
        decreases words.len() - i,
    {
        r.push(words[i].clone());
        assert(r@ =~= words@.take(i + 1));
        i += 1;
    }
    assert(words@.take(words.len() as int) =~= words@);
    r
}

/// Two descriptions say the same.
pub open spec fn same_config(a: LanguageConfig, b: LanguageConfig) -> bool {
    &&& a.keywords@ == b.keywords@
    &&& a.primitive_types@ == b.primitive_types@
    &&& a.line_comment_start@ == b.line_comment_start@
    &&& a.block_comment_start@ == b.block_comment_start@
    &&& a.block_comment_end@ == b.block_comment_end@
    &&& a.brackets@ == b.brackets@
}

/// A copy of `config`.
pub fn clone_config(config: &LanguageConfig) -> (r: LanguageConfig)
    ensures
        same_config(r, *config),
{
    LanguageConfig {
        keywords: clone_strings(&config.keywords),
        primitive_types: clone_strings(&config.primitive_types),
        line_comment_start: config.line_comment_start.clone(),
        block_comment_start: config.block_comment_start.clone(),
        block_comment_end: config.block_comment_end.clone(),
        brackets: clone_brackets(&config.brackets),
    }
}

fn clone_brackets(brackets: &Vec<BracketConfig>) -> (r: Vec<BracketConfig>)
    ensures
        r@ == brackets@,
{
    let mut r: Vec<BracketConfig> = Vec::new();
    let mut i: usize = 0;
    while i < brackets.len()
        invariant
            i <= brackets.len(),
            r@ == brackets@.take(i as int),
        decreases brackets.len() - i,
    {
        r.push(brackets[i]);
        assert(r@ =~= brackets@.take(i + 1));
        i += 1;
    }
    assert(brackets@.take(brackets.len() as int) =~= brackets@);
    r
}

/// The first character of `s`, or `fallback` if `s` is empty.
pub open spec fn first_char_or(s: Seq<char>, fallback: char) -> char {
    if s.len() > 0 {
        s[0]
    } else {
        fallback
    }
}

/// The pair of brackets that `b` describes: the first character of each
/// text, `(` and `)` where a text is empty, and 0 where no colour offset is
/// given.
pub open spec fn bracket_of(b: BracketConfigFile) -> BracketConfig {
    BracketConfig {
        open: first_char_or(b.open@, '('),
        close: first_char_or(b.close@, ')'),
        color_offset: match b.color_offset {
            Some(offset) => offset,
            None => 0,
        },
    }
}

/// The brackets of a merged description: those of the file, each as
/// `bracket_of` says, or the built-in ones if the file gives none.
pub open spec fn merged_brackets(
    default: Seq<BracketConfig>,
    file_brackets: Option<Vec<BracketConfigFile>>,
) -> Seq<BracketConfig> {
    match file_brackets {
        Some(list) => Seq::new(list@.len(), |i: int| bracket_of(list@[i])),
        None => default,
    }
}

/// The description that results when `file` is laid over `default`: each
/// entry comes from the file where the file has it, else from `default`.
pub open spec fn merged(default: LanguageConfig, file: LanguageConfigFile, r: LanguageConfig) -> bool {
    &&& r.keywords@ == match file.keywords {
        Some(words) => words@,
        None => default.keywords@,
    }
    &&& r.primitive_types@ == match file.primitive_types {
        Some(words) => words@,
        None => default.primitive_types@,
    }
    &&& r.line_comment_start@ == match file.line_comment_start {
        Some(s) => s@,
        None => default.line_comment_start@,
    }
    &&& r.block_comment_start@ == match file.block_comment_start {
        Some(s) => s@,
        None => default.block_comment_start@,
    }
    &&& r.block_comment_end@ == match file.block_comment_end {
        Some(s) => s@,
        None => default.block_comment_end@,
    }
    &&& r.brackets@ == merged_brackets(default.brackets@, file.brackets)
}

/// Lays the description read from a file over the built-in one. Without a
/// file the result is the built-in description.
pub fn merge_config(default: &LanguageConfig, file_config: Option<&LanguageConfigFile>) -> (r:
    LanguageConfig)
    ensures
        match file_config {
            Some(file) => merged(*default, *file, r),
            None => same_config(r, *default),
        },
{
    let file_config = match file_config {
        Some(c) => c,
        None => {
            return clone_config(default);
        },
    };
    LanguageConfig {
        keywords: match &file_config.keywords {
            Some(words) => clone_strings(words),
            None => clone_strings(&default.keywords),
        },
        primitive_types: match &file_config.primitive_types {
            Some(words) => clone_strings(words),
            None => clone_strings(&default.primitive_types),
        },
        line_comment_start: match &file_config.line_comment_start {
            Some(s) => s.clone(),
            None => default.line_comment_start.clone(),
        },
        block_comment_start: match &file_config.block_comment_start {
            Some(s) => s.clone(),
            None => default.block_comment_start.clone(),
        },
        block_comment_end: match &file_config.block_comment_end {
            Some(s) => s.clone(),
            None => default.block_comment_end.clone(),
        },
        brackets: merge_brackets(&default.brackets, &file_config.brackets),
    }
}

/// One of the first `n` of `found` is named `name`.
pub open spec fn named_among(found: Seq<(String, LanguageConfigFile)>, name: Seq<char>, n: int) -> bool
    decreases n,
{
    if n <= 0 || n > found.len() {
        false
    } else {
        found[n - 1].0@ == name || named_among(found, name, n - 1)
    }
}

/// The extensions of the files of the language `name` with the description
/// `file`: those that the description names, or the name of the language if
/// it names none.
pub open spec fn extensions_for(name: Seq<char>, file: LanguageConfigFile) -> Seq<Seq<char>> {
    match file.extensions {
        Some(list) => texts(list@),
        None => seq![name],
    }
}

/// The languages among the first `n` of `found`, each with the extensions of
/// its files. A language that is named in `taken` is left out.
pub open spec fn discovered(
    found: Seq<(String, LanguageConfigFile)>,
    taken: Seq<(String, LanguageConfigFile)>,
    n: int,
) -> Seq<(Seq<char>, Seq<Seq<char>>)>
    decreases n,
{
    if n <= 0 || n > found.len() {
        Seq::empty()
    } else {
        let rest = discovered(found, taken, n - 1);
        if named_among(taken, found[n - 1].0@, taken.len() as int) {
            rest
        } else {
            rest.push((found[n - 1].0@, extensions_for(found[n - 1].0@, found[n - 1].1)))
        }
    }
}

/// The names and extension lists of `entries`, as texts.
pub open spec fn entries_view(entries: Seq<(String, Vec<String>)>) -> Seq<(Seq<char>, Seq<Seq<char>>)> {
    Seq::new(entries.len(), |i: int| (entries[i].0@, texts(entries[i].1@)))
}

fn is_named_among(found: &Vec<(String, LanguageConfigFile)>, name: &str) -> (r: bool)
    ensures
        r == named_among(found@, name@, found@.len() as int),
{
    let mut i: usize = 0;
    while i < found.len()
        invariant
            i <= found.len(),
            !named_among(found@, name@, i as int),
        decreases found.len() - i,
    {
        if str_eq(found[i].0.as_str(), name) {
            proof {
                lemma_named_among(found@, name@, i + 1, found@.len() as int);
            }
            return true;
        }
        i += 1;
    }
    false
}

/// A name found among the first `k` is found among the first `n >= k`.
pub proof fn lemma_named_among(found: Seq<(String, LanguageConfigFile)>, name: Seq<char>, k: int, n: int)
    requires
        0 <= k <= n <= found.len(),
        named_among(found, name, k),
    ensures
        named_among(found, name, n),
    decreases n - k,
{
    if k < n {
        lemma_named_among(found, name, k, n - 1);
    }
}

fn extensions_of_entry(entry: &(String, LanguageConfigFile)) -> (extensions: Vec<String>)
    ensures
        texts(extensions@) == extensions_for(entry.0@, entry.1),
{
    let extensions = match &entry.1.extensions {
        Some(list) => clone_strings(list),
        None => {
            let mut list: Vec<String> = Vec::new();
            list.push(entry.0.clone());
            list
        },
    };
    assert(texts(extensions@) =~= extensions_for(entry.0@, entry.1));
    extensions
}

fn add_discovered(
    all: &mut Vec<(String, Vec<String>)>,
    found: &Vec<(String, LanguageConfigFile)>,
    taken: &Vec<(String, LanguageConfigFile)>,
)
    ensures
        entries_view(final(all)@) == entries_view(old(all)@) + discovered(
            found@,
            taken@,
            found@.len() as int,
        ),
{
    let mut i: usize = 0;
    assert(entries_view(all@) + discovered(found@, taken@, 0) =~= entries_view(all@));
    while i < found.len()
        invariant
            i <= found.len(),
            entries_view(all@) == entries_view(old(all)@) + discovered(found@, taken@, i as int),
        decreases found.len() - i,
    {
        let ghost before = all@;
        if !is_named_among(taken, found[i].0.as_str()) {
            let extensions = extensions_of_entry(&found[i]);
            let name = found[i].0.clone();
            all.push((name, extensions));
            assert(entries_view(all@) =~= entries_view(before).push(
                (found@[i as int].0@, extensions_for(found@[i as int].0@, found@[i as int].1)),
            ));
        }
        i += 1;
        assert(entries_view(all@) =~= entries_view(old(all)@) + discovered(found@, taken@, i as int));
    }
}

/// The languages that the user and the editor describe, each with the
/// extensions of its files: first those of the user, then those of the
/// editor that the user does not describe.
pub fn discover_language_extensions(
    user: &Vec<(String, LanguageConfigFile)>,
    defaults: &Vec<(String, LanguageConfigFile)>,
) -> (r: Vec<(String, Vec<String>)>)
    ensures
        entries_view(r@) == discovered(user@, Seq::empty(), user@.len() as int) + discovered(
            defaults@,
            user@,
            defaults@.len() as int,
        ),
{
    let mut all: Vec<(String, Vec<String>)> = Vec::new();
    let none: Vec<(String, LanguageConfigFile)> = Vec::new();
    assert(entries_view(all@) =~= Seq::empty());
    add_discovered(&mut all, user, &none);
    add_discovered(&mut all, defaults, user);
    all
}

fn bracket_from_file(b: &BracketConfigFile) -> (r: BracketConfig)
    ensures
        r == bracket_of(*b),
{
    let open = chars_vec(b.open.as_str());
    let close = chars_vec(b.close.as_str());
    let open_char = if open.len() > 0 {
        open[0]
    } else {
        '('
    };
    let close_char = if close.len() > 0 {
        close[0]
    } else {
        ')'
    };
    let color_offset = match b.color_offset {
        Some(offset) => offset,
        None => 0,
    };
    BracketConfig { open: open_char, close: close_char, color_offset }
}

fn merge_brackets(default: &Vec<BracketConfig>, file_brackets: &Option<Vec<BracketConfigFile>>) -> (r:
    Vec<BracketConfig>)
    ensures
        r@ == merged_brackets(default@, *file_brackets),
{
    let file_brackets = match file_brackets {
        Some(b) => b,
        None => {
            return clone_brackets(default);
        },
    };
    let mut list: Vec<BracketConfig> = Vec::new();
    let mut i: usize = 0;
    while i < file_brackets.len()
        invariant
            i <= file_brackets.len(),
            list.len() == i,
            forall|k: int| 0 <= k < i ==> #[trigger] list@[k] == bracket_of(file_brackets@[k]),
        decreases file_brackets.len() - i,
    {
        let bracket = bracket_from_file(&file_brackets[i]);
        list.push(bracket);
        i += 1;
    }
    assert(list@ =~= merged_brackets(default@, Some(*file_brackets)));
    list
}

} // verus!
