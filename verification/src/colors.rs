//! The colours in which annotations are shown.

use vstd::prelude::*;
use crate::annotation_type::AnnotationType;

verus! {

/// A colour, by its red, green and blue parts.
#[derive(Copy, Clone, Debug, PartialEq, Eq, Structural)]
pub struct ColorRgb {
    pub r: u8,
    pub g: u8,
    pub b: u8,
}

/// The colours that a file gives: every entry may be missing, and the
/// brackets may be fewer or more than the four classes.
#[derive(Debug)]
pub struct ColorsConfig {
    pub keyword: Option<ColorRgb>,
    pub number: Option<ColorRgb>,
    pub type_identifier: Option<ColorRgb>,
    pub primitive_type: Option<ColorRgb>,
    pub string: Option<ColorRgb>,
    pub comment: Option<ColorRgb>,
    pub brackets: Option<Vec<ColorRgb>>,
}

/// A file of colours.
#[derive(Debug)]
pub struct ColorsConfigFile {
    pub colors: Option<ColorsConfig>,
}

/// The colour of every kind of annotation.
#[derive(Copy, Clone, Debug, PartialEq, Eq, Structural)]
pub struct ColorScheme {
    pub match_fg: ColorRgb,
    pub match_bg: ColorRgb,
    pub selected_match_fg: ColorRgb,
    pub selected_match_bg: ColorRgb,
    pub selection_fg: ColorRgb,
    pub selection_bg: ColorRgb,
    pub keyword: ColorRgb,
    pub number: ColorRgb,
    pub type_identifier: ColorRgb,
    pub primitive_type: ColorRgb,
    pub string: ColorRgb,
    pub comment: ColorRgb,
    pub bracket0: ColorRgb,
    pub bracket1: ColorRgb,
    pub bracket2: ColorRgb,
    pub bracket3: ColorRgb,
}

/// The colours of a stretch of text; `None` where the terminal's own colour
/// stays.
#[derive(Copy, Clone, Debug, PartialEq, Eq, Structural)]
pub struct Attribute {
    pub foreground: Option<ColorRgb>,
    pub background: Option<ColorRgb>,
}

/// The colour with the parts `r`, `g` and `b`.
pub open spec fn rgb(r: u8, g: u8, b: u8) -> ColorRgb {
    ColorRgb { r, g, b }
}

/// The built-in colours.
pub open spec fn default_scheme() -> ColorScheme {
    ColorScheme {
        match_fg: rgb(255, 255, 255),
        match_bg: rgb(100, 100, 100),
        selected_match_fg: rgb(255, 255, 255),
        selected_match_bg: rgb(200, 180, 60),
        selection_fg: rgb(255, 255, 255),
        selection_bg: rgb(38, 79, 120),
        keyword: rgb(86, 156, 214),
        number: rgb(181, 206, 168),
        type_identifier: rgb(78, 201, 176),
        primitive_type: rgb(78, 201, 176),
        string: rgb(206, 145, 120),
        comment: rgb(106, 153, 85),
        bracket0: rgb(140, 140, 140),
        bracket1: rgb(97, 175, 239),
        bracket2: rgb(198, 120, 221),
        bracket3: rgb(152, 195, 121),
    }
}

/// The colour `from_file` if it is given, else `default`.
pub open spec fn or_default(from_file: Option<ColorRgb>, default: ColorRgb) -> ColorRgb {
    match from_file {
        Some(color) => color,
        None => default,
    }
}

/// The colour of bracket class `i`: the `i`-th of the file if the file lists
/// that many, else `default`.
pub open spec fn bracket_or_default(from_file: Option<Vec<ColorRgb>>, i: int, default: ColorRgb) -> ColorRgb {
    match from_file {
        Some(list) => if i < list@.len() {
            list@[i]
        } else {
            default
        },
        None => default,
    }
}

/// The colours that result when `file` is laid over `default`. The colours
/// of matches and of the selection are never taken from a file.
pub open spec fn merged_scheme(default: ColorScheme, file: ColorsConfig) -> ColorScheme {
    ColorScheme {
        keyword: or_default(file.keyword, default.keyword),
        number: or_default(file.number, default.number),
        type_identifier: or_default(file.type_identifier, default.type_identifier),
        primitive_type: or_default(file.primitive_type, default.primitive_type),
        string: or_default(file.string, default.string),
        comment: or_default(file.comment, default.comment),
        bracket0: bracket_or_default(file.brackets, 0, default.bracket0),
        bracket1: bracket_or_default(file.brackets, 1, default.bracket1),
        bracket2: bracket_or_default(file.brackets, 2, default.bracket2),
        bracket3: bracket_or_default(file.brackets, 3, default.bracket3),
        ..default
    }
}

/// The colours in which `scheme` shows an annotation of kind `kind`: matches
/// and the selection have a background, everything else a foreground only.
pub open spec fn attribute_of(kind: AnnotationType, scheme: ColorScheme) -> Attribute {
    match kind {
        AnnotationType::Match => Attribute {
            foreground: Some(scheme.match_fg),
            background: Some(scheme.match_bg),
        },
        AnnotationType::SelectedMatch => Attribute {
            foreground: Some(scheme.selected_match_fg),
            background: Some(scheme.selected_match_bg),
        },
        AnnotationType::Selection => Attribute {
            foreground: Some(scheme.selection_fg),
            background: Some(scheme.selection_bg),
        },
        AnnotationType::Keyword => Attribute { foreground: Some(scheme.keyword), background: None },
        AnnotationType::Number => Attribute { foreground: Some(scheme.number), background: None },
        AnnotationType::Type => Attribute { foreground: Some(scheme.type_identifier), background: None },
        AnnotationType::PrimitiveType => Attribute {
            foreground: Some(scheme.primitive_type),
            background: None,
        },
        AnnotationType::String => Attribute { foreground: Some(scheme.string), background: None },
        AnnotationType::Comment => Attribute { foreground: Some(scheme.comment), background: None },
        AnnotationType::Bracket0 => Attribute { foreground: Some(scheme.bracket0), background: None },
        AnnotationType::Bracket1 => Attribute { foreground: Some(scheme.bracket1), background: None },
        AnnotationType::Bracket2 => Attribute { foreground: Some(scheme.bracket2), background: None },
        AnnotationType::Bracket3 => Attribute { foreground: Some(scheme.bracket3), background: None },
    }
}

/// The built-in colours.
pub fn default_color_scheme() -> (r: ColorScheme)
    ensures
        r == default_scheme(),
{
    ColorScheme {
        match_fg: ColorRgb { r: 255, g: 255, b: 255 },
        match_bg: ColorRgb { r: 100, g: 100, b: 100 },
        selected_match_fg: ColorRgb { r: 255, g: 255, b: 255 },
        selected_match_bg: ColorRgb { r: 200, g: 180, b: 60 },
        selection_fg: ColorRgb { r: 255, g: 255, b: 255 },
        selection_bg: ColorRgb { r: 38, g: 79, b: 120 },
        keyword: ColorRgb { r: 86, g: 156, b: 214 },
        number: ColorRgb { r: 181, g: 206, b: 168 },
        type_identifier: ColorRgb { r: 78, g: 201, b: 176 },
        primitive_type: ColorRgb { r: 78, g: 201, b: 176 },
        string: ColorRgb { r: 206, g: 145, b: 120 },
        comment: ColorRgb { r: 106, g: 153, b: 85 },
        bracket0: ColorRgb { r: 140, g: 140, b: 140 },
        bracket1: ColorRgb { r: 97, g: 175, b: 239 },
        bracket2: ColorRgb { r: 198, g: 120, b: 221 },
        bracket3: ColorRgb { r: 152, g: 195, b: 121 },
    }
}

fn color_or(from_file: &Option<ColorRgb>, default: ColorRgb) -> (r: ColorRgb)
    ensures
        r == or_default(*from_file, default),
{
    match from_file {
        Some(color) => *color,
        None => default,
    }
}

fn bracket_or(from_file: &Option<Vec<ColorRgb>>, i: usize, default: ColorRgb) -> (r: ColorRgb)
    ensures
        r == bracket_or_default(*from_file, i as int, default),
{
    match from_file {
        Some(list) => if i < list.len() {
            list[i]
        } else {
            default
        },
        None => default,
    }
}

/// Lays the colours read from a file over the built-in ones. Without a file
/// the result is `default`.
pub fn merge_color_scheme(default: &ColorScheme, file_config: Option<&ColorsConfig>) -> (r: ColorScheme)
    ensures
        r == match file_config {
            Some(file) => merged_scheme(*default, *file),
            None => *default,
        },
{
    let file_config = match file_config {
        Some(file) => file,
        None => {
            return *default;
        },
    };
    ColorScheme {
        match_fg: default.match_fg,
        match_bg: default.match_bg,
        selected_match_fg: default.selected_match_fg,
        selected_match_bg: default.selected_match_bg,
        selection_fg: default.selection_fg,
        selection_bg: default.selection_bg,
        keyword: color_or(&file_config.keyword, default.keyword),
        number: color_or(&file_config.number, default.number),
        type_identifier: color_or(&file_config.type_identifier, default.type_identifier),
        primitive_type: color_or(&file_config.primitive_type, default.primitive_type),
        string: color_or(&file_config.string, default.string),
        comment: color_or(&file_config.comment, default.comment),
        bracket0: bracket_or(&file_config.brackets, 0, default.bracket0),
        bracket1: bracket_or(&file_config.brackets, 1, default.bracket1),
        bracket2: bracket_or(&file_config.brackets, 2, default.bracket2),
        bracket3: bracket_or(&file_config.brackets, 3, default.bracket3),
    }
}

impl Attribute {
    /// The colours in which `scheme` shows an annotation of kind
    /// `annotation_type`.
    pub fn from(annotation_type: AnnotationType, scheme: &ColorScheme) -> (r: Self)
        ensures
            r == attribute_of(annotation_type, *scheme),
    {
        match annotation_type {
            AnnotationType::Match => Attribute {
                foreground: Some(scheme.match_fg),
                background: Some(scheme.match_bg),
            },
            AnnotationType::SelectedMatch => Attribute {
                foreground: Some(scheme.selected_match_fg),
                background: Some(scheme.selected_match_bg),
            },
            AnnotationType::Selection => Attribute {
                foreground: Some(scheme.selection_fg),
                background: Some(scheme.selection_bg),
            },
            AnnotationType::Keyword => Attribute { foreground: Some(scheme.keyword), background: None },
            AnnotationType::Number => Attribute { foreground: Some(scheme.number), background: None },
            AnnotationType::Type => Attribute { foreground: Some(scheme.type_identifier), background: None },
            AnnotationType::PrimitiveType => Attribute {
                foreground: Some(scheme.primitive_type),
                background: None,
            },
            AnnotationType::String => Attribute { foreground: Some(scheme.string), background: None },
            AnnotationType::Comment => Attribute { foreground: Some(scheme.comment), background: None },
            AnnotationType::Bracket0 => Attribute { foreground: Some(scheme.bracket0), background: None },
            AnnotationType::Bracket1 => Attribute { foreground: Some(scheme.bracket1), background: None },
            AnnotationType::Bracket2 => Attribute { foreground: Some(scheme.bracket2), background: None },
            AnnotationType::Bracket3 => Attribute { foreground: Some(scheme.bracket3), background: None },
        }
    }
}

} // verus!
