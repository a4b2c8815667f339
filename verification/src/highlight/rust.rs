//! The built-in highlighter for Rust.

use vstd::prelude::*;
use vstd::string::*;
use crate::highlight::config::{default_rust_config, is_rust_config, LanguageConfig};
use crate::highlight::generic::{line_annotations, tokenize};
use crate::highlight::highlighter::{HighlightAnnotation, HighlightState, Highlighter};

verus! {

/// The tokenizer with the built-in description of Rust.
pub struct RustHighlighter {
    config: LanguageConfig,
}

impl RustHighlighter {
    /// The description of the language.
    pub closed spec fn config(&self) -> LanguageConfig {
        self.config
    }

    /// The highlighter for Rust.
    pub fn new() -> (r: Self)
        ensures
            is_rust_config(r.config()),
    {
        Self { config: default_rust_config() }
    }
}

impl Default for RustHighlighter {
    fn default() -> (r: Self)
        ensures
            is_rust_config(r.config()),
    {
        Self::new()
    }
}

impl Highlighter for RustHighlighter {
    open spec fn highlighted(&self, line: Seq<char>, state: HighlightState) -> (
        Seq<HighlightAnnotation>,
        HighlightState,
    ) {
        line_annotations(self.config(), line, state)
    }

    open spec fn name(&self) -> Seq<char> {
        "rust"@
    }

    fn highlight_line(&self, line: &str, line_idx: usize, state: HighlightState) -> (r: (
        Vec<HighlightAnnotation>,
        HighlightState,
    )) {
        tokenize(&self.config, line, state)
    }

    fn language_name(&self) -> (r: &str) {
        "rust"
    }
}

} // verus!
