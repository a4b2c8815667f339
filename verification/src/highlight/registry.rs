//! The highlighters of the editor, by file extension.

use vstd::prelude::*;
use vstd::string::*;
use crate::highlight::config::{clone_strings, described_by, LanguageConfigFile};
use crate::highlight::generic::GenericHighlighter;
use crate::highlight::highlighter::{HighlightAnnotation, HighlightState, Highlighter};
use crate::highlight::rust::RustHighlighter;
use crate::highlight::scan::{same_chars};
use crate::text::chars_vec;

verus! {

/// One of the highlighters that the editor has.
pub enum LanguageHighlighter {
    Rust(RustHighlighter),
    Generic(GenericHighlighter),
}

impl Highlighter for LanguageHighlighter {
    open spec fn highlighted(&self, line: Seq<char>, state: HighlightState) -> (
        Seq<HighlightAnnotation>,
        HighlightState,
    ) {
        match self {
            LanguageHighlighter::Rust(h) => h.highlighted(line, state),
            LanguageHighlighter::Generic(h) => h.highlighted(line, state),
        }
    }

    open spec fn name(&self) -> Seq<char> {
        match self {
            LanguageHighlighter::Rust(h) => h.name(),
            LanguageHighlighter::Generic(h) => h.name(),
        }
    }

    fn highlight_line(&self, line: &str, line_idx: usize, state: HighlightState) -> (r: (
        Vec<HighlightAnnotation>,
        HighlightState,
    )) {
        match self {
            LanguageHighlighter::Rust(h) => h.highlight_line(line, line_idx, state),
            LanguageHighlighter::Generic(h) => h.highlight_line(line, line_idx, state),
        }
    }

    fn language_name(&self) -> (r: &str) {
        match self {
            LanguageHighlighter::Rust(h) => h.language_name(),
            LanguageHighlighter::Generic(h) => h.language_name(),
        }
    }
}

/// The index that the first `n` of `entries` give for the extension `ext`:
/// that of the entry added last.
pub open spec fn lookup(entries: Seq<(String, usize)>, ext: Seq<char>, n: int) -> Option<usize>
    decreases n,
{
    if n <= 0 || n > entries.len() {
        None
    } else if entries[n - 1].0@ == ext {
        Some(entries[n - 1].1)
    } else {
        lookup(entries, ext, n - 1)
    }
}

/// `entries` with one entry added for each of the first `n` of `extensions`,
/// all for the highlighter `index`.
pub open spec fn with_extensions(
    entries: Seq<(String, usize)>,
    extensions: Seq<String>,
    index: usize,
    n: int,
) -> Seq<(String, usize)>
    decreases n,
{
    if n <= 0 || n > extensions.len() {
        entries
    } else {
        with_extensions(entries, extensions, index, n - 1).push((extensions[n - 1], index))
    }
}

/// One of the first `n` of `extensions` is `ext`.
pub open spec fn names(extensions: Seq<String>, ext: Seq<char>, n: int) -> bool
    decreases n,
{
    if n <= 0 || n > extensions.len() {
        false
    } else {
        extensions[n - 1]@ == ext || names(extensions, ext, n - 1)
    }
}

/// Every one of the first `n` of `extensions` is named among them.
pub proof fn lemma_names(extensions: Seq<String>, k: int, n: int)
    requires
        0 <= k < n <= extensions.len(),
    ensures
        names(extensions, extensions[k]@, n),
    decreases n,
{
    if k < n - 1 {
        lemma_names(extensions, k, n - 1);
    }
}

/// What an extension leads to is what one of the entries says.
pub proof fn lemma_lookup_is_an_entry(entries: Seq<(String, usize)>, ext: Seq<char>, n: int)
    requires
        0 <= n <= entries.len(),
    ensures
        lookup(entries, ext, n) is Some ==> exists|i: int|
            0 <= i < n && (#[trigger] entries[i]).1 == lookup(entries, ext, n)->0,
    decreases n,
{
    if n > 0 && entries[n - 1].0@ != ext {
        lemma_lookup_is_an_entry(entries, ext, n - 1);
    }
}

/// What an extension leads to among the first `n` entries depends on those
/// entries alone.
pub proof fn lemma_lookup_looks_at_its_entries(
    a: Seq<(String, usize)>,
    b: Seq<(String, usize)>,
    ext: Seq<char>,
    n: int,
)
    requires
        0 <= n <= a.len(),
        n <= b.len(),
        forall|i: int| 0 <= i < n ==> a[i] == b[i],
    ensures
        lookup(a, ext, n) == lookup(b, ext, n),
    decreases n,
{
    if n > 0 {
        lemma_lookup_looks_at_its_entries(a, b, ext, n - 1);
    }
}

/// After the first `n` of `extensions` were added for the highlighter
/// `index`, each of them leads to it, and every other extension leads where it
/// led before.
pub proof fn lemma_lookup_with_extensions(
    entries: Seq<(String, usize)>,
    extensions: Seq<String>,
    index: usize,
    n: int,
    ext: Seq<char>,
)
    requires
        0 <= n <= extensions.len(),
    ensures
        with_extensions(entries, extensions, index, n).len() == entries.len() + n,
        lookup(
            with_extensions(entries, extensions, index, n),
            ext,
            entries.len() + n,
        ) == if names(extensions, ext, n) {
            Some(index)
        } else {
            lookup(entries, ext, entries.len() as int)
        },
    decreases n,
{
    if n > 0 {
        lemma_lookup_with_extensions(entries, extensions, index, n - 1, ext);
        let before = with_extensions(entries, extensions, index, n - 1);
        let after = with_extensions(entries, extensions, index, n);
        assert(after == before.push((extensions[n - 1], index)));
        lemma_lookup_looks_at_its_entries(after, before, ext, entries.len() + n - 1);
    }
}

/// `extensions` are the extensions of the files of `language`: those that
/// `file` names, or the name of the language alone if it names none.
pub open spec fn language_extensions(language: Seq<char>, file: LanguageConfigFile, extensions: Seq<String>) -> bool {
    match file.extensions {
        Some(list) => extensions == list@,
        None => extensions.len() == 1 && extensions[0]@ == language,
    }
}

/// The highlighters and the file extensions that lead to them.
pub struct HighlighterRegistry {
    highlighters: Vec<LanguageHighlighter>,
    extension_map: Vec<(String, usize)>,
}

impl HighlighterRegistry {
    /// The highlighters, in the order in which they were registered.
    pub closed spec fn highlighters(&self) -> Seq<LanguageHighlighter> {
        self.highlighters@
    }

    /// The extensions, each with the index of its highlighter, in the order
    /// in which they were registered.
    pub closed spec fn extensions(&self) -> Seq<(String, usize)> {
        self.extension_map@
    }

    /// Every extension leads to a highlighter that is there.
    pub closed spec fn wf(&self) -> bool {
        forall|i: int|
            0 <= i < self.extension_map@.len() ==> (#[trigger] self.extension_map@[i]).1
                < self.highlighters@.len()
    }

    /// The highlighter that `ext` leads to, if it leads to one.
    pub open spec fn highlighter_for(&self, ext: Seq<char>) -> Option<LanguageHighlighter> {
        match lookup(self.extensions(), ext, self.extensions().len() as int) {
            Some(index) => Some(self.highlighters()[index as int]),
            None => None,
        }
    }

    /// The registry with the built-in highlighter for Rust under `rs`.
    pub fn new() -> (r: Self)
        ensures
            r.wf(),
            r.highlighters().len() == 1,
            r.highlighters()[0] is Rust,
            r.extensions().len() == 1,
            r.extensions()[0].0@ == "rs"@,
            r.extensions()[0].1 == 0,
    {
        let mut registry = Self { highlighters: Vec::new(), extension_map: Vec::new() };
        let mut extensions: Vec<String> = Vec::new();
        extensions.push("rs".to_owned());
        registry.register(LanguageHighlighter::Rust(RustHighlighter::new()), extensions);
        proof {
            reveal_with_fuel(with_extensions, 2);
        }
        registry
    }

    /// Adds `highlighter` and lets each of `extensions` lead to it. An
    /// extension that led elsewhere leads here from now on.
    pub fn register(&mut self, highlighter: LanguageHighlighter, extensions: Vec<String>)
        requires
            old(self).wf(),
        ensures
            final(self).wf(),
            final(self).highlighters() == old(self).highlighters().push(highlighter),
            final(self).highlighters().len() <= usize::MAX,
            final(self).extensions() == with_extensions(
                old(self).extensions(),
                extensions@,
                old(self).highlighters().len() as usize,
                extensions@.len() as int,
            ),
            forall|ext: Seq<char>| #[trigger]
                final(self).highlighter_for(ext) == if names(extensions@, ext, extensions@.len() as int) {
                    Some(highlighter)
                } else {
                    old(self).highlighter_for(ext)
                },
            forall|k: int|
                0 <= k < extensions@.len() ==> final(self).highlighter_for(
                    (#[trigger] extensions@[k])@,
                ) == Some(highlighter),
    {
        let index = self.highlighters.len();
        self.highlighters.push(highlighter);
        let count = self.highlighters.len();
        let mut i: usize = 0;
        while i < extensions.len()
            invariant
                i <= extensions.len(),
                index < self.highlighters@.len(),
                count == self.highlighters@.len(),
                self.highlighters@ == old(self).highlighters@.push(highlighter),
                self.wf(),
                self.extension_map@ == with_extensions(
                    old(self).extension_map@,
                    extensions@,
                    index,
                    i as int,
                ),
            decreases extensions.len() - i,
        {
            self.extension_map.push((extensions[i].clone(), index));
            i += 1;
        }
        proof {
            assert forall|ext: Seq<char>| #[trigger]
                self.highlighter_for(ext) == if names(extensions@, ext, extensions@.len() as int) {
                    Some(highlighter)
                } else {
                    old(self).highlighter_for(ext)
                } by {
                lemma_lookup_with_extensions(
                    old(self).extension_map@,
                    extensions@,
                    index,
                    extensions@.len() as int,
                    ext,
                );
                lemma_lookup_is_an_entry(
                    old(self).extension_map@,
                    ext,
                    old(self).extension_map@.len() as int,
                );
            }
            assert forall|k: int| 0 <= k < extensions@.len() implies self.highlighter_for(
                (#[trigger] extensions@[k])@,
            ) == Some(highlighter) by {
                lemma_names(extensions@, k, extensions@.len() as int);
            }
        }
    }

    /// Adds a highlighter for `language` as `file_config` describes it, under
    /// the extensions that `file_config` names, or under the name of the
    /// language if it names none. Without a description nothing is added.
    pub fn register_language(&mut self, language: &str, file_config: Option<&LanguageConfigFile>) -> (added:
        bool)
        requires
            old(self).wf(),
        ensures
            final(self).wf(),
            added == file_config is Some,
            !added ==> final(self).highlighters() == old(self).highlighters() && final(self).extensions()
                == old(self).extensions(),
            added ==> final(self).highlighters().len() == old(self).highlighters().len() + 1
                && final(self).highlighters().last() is Generic && final(self).highlighters().last()->Generic_0.name() == language@ && described_by(
                *file_config->0,
                final(self).highlighters().last()->Generic_0.config(),
            ) && final(self).highlighters().drop_last() == old(self).highlighters() && exists|
                extensions: Seq<String>,
            |
                language_extensions(language@, *file_config->0, extensions) && final(self).extensions()
                    == with_extensions(
                    old(self).extensions(),
                    extensions,
                    old(self).highlighters().len() as usize,
                    extensions.len() as int,
                ),
    {
        let file = match file_config {
            Some(file) => file,
            None => {
                return false;
            },
        };
        let highlighter = match GenericHighlighter::new(language, Some(file)) {
            Some(highlighter) => highlighter,
            None => {
                return false;
            },
        };
        let extensions = match &file.extensions {
            Some(list) => clone_strings(list),
            None => {
                let mut list: Vec<String> = Vec::new();
                list.push(language.to_owned());
                list
            },
        };
        let ghost named = extensions@;
        self.register(LanguageHighlighter::Generic(highlighter), extensions);
        assert(final(self).highlighters().drop_last() =~= old(self).highlighters());
        assert(language_extensions(language@, *file, named));
        true
    }

    /// The highlighter for files with the extension `file_extension`. There
    /// is none without an extension, nor for one that was not registered.
    pub fn get_highlighter(&self, file_extension: Option<&str>) -> (r: Option<&LanguageHighlighter>)
        requires
            self.wf(),
        ensures
            file_extension is None ==> r is None,
            file_extension is Some ==> (r is Some <==> self.highlighter_for(file_extension->0@) is Some),
            file_extension is Some && r is Some ==> *r->0 == self.highlighter_for(file_extension->0@)->0,
    {
        let ext = match file_extension {
            Some(ext) => chars_vec(ext),
            None => {
                return None;
            },
        };
        let mut n = self.extension_map.len();
        while n > 0
            invariant
                n <= self.extension_map.len(),
                self.wf(),
                file_extension is Some,
                ext@ == file_extension->0@,
                lookup(self.extension_map@, ext@, n as int) == lookup(
                    self.extension_map@,
                    ext@,
                    self.extension_map@.len() as int,
                ),
            decreases n,
        {
            let key = chars_vec(self.extension_map[n - 1].0.as_str());
            if same_chars(&key, &ext) {
                let index = self.extension_map[n - 1].1;
                return Some(&self.highlighters[index]);
            }
            n -= 1;
        }
        None
    }
}

impl Default for HighlighterRegistry {
    fn default() -> (r: Self)
        ensures
            r.wf(),
    {
        Self::new()
    }
}

} // verus!
