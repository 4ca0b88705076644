//! The regular expression of a condition, read from its text in a rule file.

use crate::pattern::{pattern_language, regex_language};
use regex::Regex;
use vstd::prelude::*;

verus! {

/// The error for a text that is no regular expression.
#[derive(Debug)]
pub struct InvalidPattern {
    /// The text that does not compile.
    pub pattern: String,
}

/// Compiles the regular expression of a condition, where the rule file gives
/// one. A text that does not compile is an error: a rule with such a text is
/// not loaded.
pub fn deserialize(pattern: Option<String>) -> (r: Result<Option<Regex>, InvalidPattern>)
    ensures
        match r {
            Ok(Some(re)) => pattern matches Some(text) && pattern_language(text@) == Some(
                regex_language(re),
            ),
            Ok(None) => pattern is None,
            Err(e) => pattern matches Some(text) && pattern_language(text@) is None && e.pattern@
                == text@,
        },
{
    match pattern {
        Some(text) => match Regex::new(text.as_str()) {
            Ok(re) => Ok(Some(re)),
            Err(_) => Err(InvalidPattern { pattern: text }),
        },
        None => Ok(None),
    }
}

} // verus!
