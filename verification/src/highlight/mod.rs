//! Syntax highlighting, one line at a time.

pub mod config;
pub mod generic;
pub mod highlighter;
pub mod nesting;
pub mod registry;
pub mod rust;
pub mod scan;
