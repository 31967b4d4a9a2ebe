//! The kinds of memory that a project keeps.

use crate::scanner::{lowercase, to_lowercase};
use crate::strings::str_eq;
use vstd::prelude::*;

verus! {

/// What a memory is about.
#[derive(Clone, Copy, Debug, PartialEq, Eq, Hash, Structural)]
pub enum MemoryCategory {
    Rule,
    Preference,
    Pattern,
    Context,
}

/// The category that the lower-case word `word` names; a rule where it names
/// none.
pub open spec fn category_named(word: Seq<char>) -> MemoryCategory {
    if word == "preference"@ || word == "偏好"@ {
        MemoryCategory::Preference
    } else if word == "pattern"@ || word == "模式"@ || word == "最佳实践"@ {
        MemoryCategory::Pattern
    } else if word == "context"@ || word == "背景"@ || word == "上下文"@ {
        MemoryCategory::Context
    } else {
        MemoryCategory::Rule
    }
}

impl MemoryCategory {
    /// The category that `s` names, in English or Chinese, whatever the case
    /// of its letters; a rule where it names none.
    pub fn from_str(s: &str) -> (out: Self)
        ensures
            out == category_named(lowercase(s@)),
    {
        let lowered = to_lowercase(s);
        let w = lowered.as_str();
        if str_eq(w, "preference") || str_eq(w, "偏好") {
            MemoryCategory::Preference
        } else if str_eq(w, "pattern") || str_eq(w, "模式") || str_eq(w, "最佳实践") {
            MemoryCategory::Pattern
        } else if str_eq(w, "context") || str_eq(w, "背景") || str_eq(w, "上下文") {
            MemoryCategory::Context
        } else {
            MemoryCategory::Rule
        }
    }

    /// The name of the category as it is shown.
    pub fn display_name(&self) -> (out: &'static str)
        ensures
            out@ == match *self {
                MemoryCategory::Rule => "规范"@,
                MemoryCategory::Preference => "偏好"@,
                MemoryCategory::Pattern => "模式"@,
                MemoryCategory::Context => "背景"@,
            },
    {
        match self {
            MemoryCategory::Rule => "规范",
            MemoryCategory::Preference => "偏好",
            MemoryCategory::Pattern => "模式",
            MemoryCategory::Context => "背景",
        }
    }
}

} // verus!
