//! What the status bar shows of a document.

use vstd::prelude::*;
use vstd::string::*;
use crate::text::{capped, decimal, str_eq, to_decimal};
use crate::unicode::push_char;

verus! {

/// The state of a document as the status bar shows it.
#[derive(Debug)]
pub struct DocumentStatus {
    pub total_lines: usize,
    pub current_line_idx: usize,
    pub is_modified: bool,
    pub file_name: String,
    pub language_name: Option<String>,
}

impl DocumentStatus {
    /// The two states show the same.
    pub open spec fn same(&self, other: &Self) -> bool {
        &&& self.total_lines == other.total_lines
        &&& self.current_line_idx == other.current_line_idx
        &&& self.is_modified == other.is_modified
        &&& self.file_name@ == other.file_name@
        &&& (self.language_name is Some <==> other.language_name is Some)
        &&& (self.language_name is Some ==> self.language_name->0@ == other.language_name->0@)
    }

    /// Whether the two states show the same.
    pub fn eq(&self, other: &Self) -> (r: bool)
        ensures
            r == self.same(other),
    {
        let same_language = match (&self.language_name, &other.language_name) {
            (Some(a), Some(b)) => str_eq(a.as_str(), b.as_str()),
            (None, None) => true,
            _ => false,
        };
        self.total_lines == other.total_lines && self.current_line_idx == other.current_line_idx
            && self.is_modified == other.is_modified && str_eq(
            self.file_name.as_str(),
            other.file_name.as_str(),
        ) && same_language
    }

    /// `(modified)` for a modified document, nothing for any other.
    pub fn modified_indicator_to_string(&self) -> (r: String)
        ensures
            r@ == if self.is_modified {
                "(modified)"@
            } else {
                Seq::<char>::empty()
            },
    {
        if self.is_modified {
            "(modified)".to_owned()
        } else {
            String::new()
        }
    }

    /// The number of lines, as in `12 lines`.
    pub fn line_count_to_string(&self) -> (r: String)
        ensures
            r@ == decimal(self.total_lines as nat) + " lines"@,
    {
        let mut r = to_decimal(self.total_lines);
        r.append(" lines");
        r
    }

    /// The number of the current line, counted from 1, and the number of
    /// lines, as in `3/12`.
    pub fn position_indicator_to_string(&self) -> (r: String)
        ensures
            r@ == decimal(capped(self.current_line_idx + 1) as nat) + seq!['/'] + decimal(
                self.total_lines as nat,
            ),
    {
        let mut r = to_decimal(self.current_line_idx.saturating_add(1));
        push_char(&mut r, '/');
        let total = to_decimal(self.total_lines);
        r.append(total.as_str());
        assert(r@ =~= decimal(capped(self.current_line_idx + 1) as nat) + seq!['/'] + decimal(
            self.total_lines as nat,
        ));
        r
    }
}

impl Default for DocumentStatus {
    fn default() -> (r: Self)
        ensures
            r.total_lines == 0,
            r.current_line_idx == 0,
            !r.is_modified,
            r.file_name@ == Seq::<char>::empty(),
            r.language_name is None,
    {
        DocumentStatus {
            total_lines: 0,
            current_line_idx: 0,
            is_modified: false,
            file_name: String::new(),
            language_name: None,
        }
    }
}

} // verus!
