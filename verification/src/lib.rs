//! Editing and rendering core of a terminal text editor: grapheme-aware
//! lines, annotated strings, a line-by-line syntax highlighter, the text
//! buffer and the view state that ties them together.

pub mod text;
pub mod unicode;
pub mod grapheme_width;
pub mod text_fragment;
pub mod line;
pub mod annotation_type;
pub mod annotation;
pub mod annotated_string;
pub mod highlight;
pub mod location;
pub mod fileinfo;
pub mod buffer;
pub mod size;
pub mod position;
pub mod document_status;
pub mod undo;
pub mod selection;
pub mod command;
pub mod view_state;
pub mod ui_component;
pub mod view;
pub mod colors;
pub mod editor_command;
pub mod editor;
