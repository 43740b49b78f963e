//! How a line is to be shown, by what it reports.

use vstd::prelude::*;
use crate::text::{contains, is_substring, same_text};

verus! {

/// The kinds of lines that are shown differently.
#[derive(Clone, Copy, Debug, PartialEq, Eq, Structural)]
pub enum LevelStyle {
    Error,
    Warn,
    Info,
    Debug,
    Plain,
}

/// The style for a record of the given level.
pub open spec fn style_of_level(level: Seq<char>) -> LevelStyle {
    if level == "ERROR"@ {
        LevelStyle::Error
    } else if level == "WARN"@ {
        LevelStyle::Warn
    } else if level == "INFO"@ {
        LevelStyle::Info
    } else if level == "DEBUG"@ {
        LevelStyle::Debug
    } else {
        LevelStyle::Plain
    }
}

/// The style for a diagnostic message: by the first of `ERROR`, `WARN` and
/// `DEBUG` that occurs in it.
pub open spec fn style_of_entry(entry: Seq<char>) -> LevelStyle {
    if is_substring("ERROR"@, entry) {
        LevelStyle::Error
    } else if is_substring("WARN"@, entry) {
        LevelStyle::Warn
    } else if is_substring("DEBUG"@, entry) {
        LevelStyle::Debug
    } else {
        LevelStyle::Plain
    }
}

/// The style for a record of the given level.
pub fn level_style(level: &str) -> (style: LevelStyle)
    ensures
        style == style_of_level(level@),
{
    if same_text(level, "ERROR") {
        LevelStyle::Error
    } else if same_text(level, "WARN") {
        LevelStyle::Warn
    } else if same_text(level, "INFO") {
        LevelStyle::Info
    } else if same_text(level, "DEBUG") {
        LevelStyle::Debug
    } else {
        LevelStyle::Plain
    }
}

/// The style for a diagnostic message.
pub fn entry_style(entry: &str) -> (style: LevelStyle)
    ensures
        style == style_of_entry(entry@),
{
    if contains(entry, "ERROR") {
        LevelStyle::Error
    } else if contains(entry, "WARN") {
        LevelStyle::Warn
    } else if contains(entry, "DEBUG") {
        LevelStyle::Debug
    } else {
        LevelStyle::Plain
    }
}

} // verus!
