//! The rules of the Dockerfile dialect.
//!
//! A rule states a condition, a severity and a message. Its scope decides what
//! it is evaluated on: `Instruction` rules on every instruction of their kind,
//! `Stage` rules on every build stage, `File` rules once on the whole file.

use crate::pattern::regex_language;
use crate::text::same_text;
use regex::Regex;
use vstd::prelude::*;

verus! {

/// The severity that a rule of this dialect declares.
#[derive(Debug, Clone, Copy, PartialEq, Eq, Hash, Structural)]
pub enum Severity {
    Info,
    Low,
    Medium,
    High,
    Critical,
}

impl Severity {
    /// The severity that a name stands for. The names are the variants' names
    /// in lower case; any other text names no severity.
    pub open spec fn named(name: Seq<char>) -> Option<Severity> {
        if name == "info"@ {
            Some(Severity::Info)
        } else if name == "low"@ {
            Some(Severity::Low)
        } else if name == "medium"@ {
            Some(Severity::Medium)
        } else if name == "high"@ {
            Some(Severity::High)
        } else if name == "critical"@ {
            Some(Severity::Critical)
        } else {
            None
        }
    }

    /// Reads a severity from its name in a rule file.
    pub fn from_name(name: &str) -> (r: Option<Severity>)
        ensures
            r == Severity::named(name@),
    {
        if same_text(name, "info") {
            Some(Severity::Info)
        } else if same_text(name, "low") {
            Some(Severity::Low)
        } else if same_text(name, "medium") {
            Some(Severity::Medium)
        } else if same_text(name, "high") {
            Some(Severity::High)
        } else if same_text(name, "critical") {
            Some(Severity::Critical)
        } else {
            None
        }
    }
}

/// One condition on one field of a context.
///
/// With `missing` set, the condition is on the presence of the field alone.
/// Otherwise the field must be present, and the first of `equals`, `regex` and
/// `glob` that is set decides; with none of them set, presence is enough.
/// A predicate without `field` holds of every context.
#[derive(Debug)]
pub struct Predicate {
    pub field: Option<String>,
    pub equals: Option<String>,
    pub regex: Option<Regex>,
    pub glob: Option<String>,
    pub missing: Option<bool>,
}

/// The condition of an `Instruction` rule: every predicate of `all`, one
/// predicate of `any`, and a condition on `field`, each where it is set.
#[derive(Debug)]
pub struct Matcher {
    pub all: Option<Vec<Predicate>>,
    pub any: Option<Vec<Predicate>>,
    pub field: Option<String>,
    pub equals: Option<String>,
    pub regex: Option<Regex>,
    pub glob: Option<String>,
    pub missing: Option<bool>,
}

/// The conditions that a `Stage` rule can ask for.
#[derive(Debug, Clone, Copy, PartialEq, Eq, Structural)]
pub struct StageWhen {
    /// The stage must end as a user other than `root`.
    pub must_end_non_root: bool,
}

impl Default for StageWhen {
    fn default() -> (r: StageWhen)
        ensures
            !r.must_end_non_root,
    {
        StageWhen { must_end_non_root: false }
    }
}

/// The conditions that a `File` rule can ask for.
#[derive(Debug, Clone, Copy, PartialEq, Eq, Structural)]
pub struct FileWhen {
    /// A `COPY` of `.` needs a `.dockerignore` file beside the Dockerfile.
    pub requires_dockerignore_if_copy_dot: bool,
}

impl Default for FileWhen {
    fn default() -> (r: FileWhen)
        ensures
            !r.requires_dockerignore_if_copy_dot,
    {
        FileWhen { requires_dockerignore_if_copy_dot: false }
    }
}

/// A rule of the Dockerfile dialect.
#[derive(Debug)]
#[allow(inconsistent_fields)]
pub enum Rule {
    Instruction {
        id: String,
        name: Option<String>,
        kind: String,
        matcher: Matcher,
        severity: Severity,
        message: String,
        remediation: String,
        tags: Vec<String>,
    },
    Stage {
        id: String,
        name: Option<String>,
        when: StageWhen,
        severity: Severity,
        message: String,
        remediation: String,
        tags: Vec<String>,
    },
    File {
        id: String,
        name: Option<String>,
        when: FileWhen,
        severity: Severity,
        message: String,
        remediation: String,
        tags: Vec<String>,
    },
}

impl Rule {
    /// The id of the rule.
    pub open spec fn spec_id(&self) -> Seq<char> {
        match self {
            Rule::Instruction { id, .. } => id@,
            Rule::Stage { id, .. } => id@,
            Rule::File { id, .. } => id@,
        }
    }

    /// The severity of the rule.
    pub open spec fn spec_severity(&self) -> Severity {
        match self {
            Rule::Instruction { severity, .. } => *severity,
            Rule::Stage { severity, .. } => *severity,
            Rule::File { severity, .. } => *severity,
        }
    }

    /// The message of the rule.
    pub open spec fn spec_message(&self) -> Seq<char> {
        match self {
            Rule::Instruction { message, .. } => message@,
            Rule::Stage { message, .. } => message@,
            Rule::File { message, .. } => message@,
        }
    }
}

/// The rules of one or more rule files.
#[derive(Debug)]
pub struct RuleSet {
    pub version: u32,
    pub rules: Vec<Rule>,
}

/// The view of an optional string.
pub open spec fn text_of(o: Option<String>) -> Option<Seq<char>> {
    match o {
        Some(s) => Some(s@),
        None => None,
    }
}

/// The texts that an optional compiled expression matches.
pub open spec fn language_of(o: Option<Regex>) -> Option<Set<Seq<char>>> {
    match o {
        Some(re) => Some(regex_language(re)),
        None => None,
    }
}

} // verus!
