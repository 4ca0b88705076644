//! Evaluation of a rule's condition against the fields of an instruction.

use crate::detectors::dockerfile::context::Context;
use crate::detectors::dockerfile::yaml_rules::{language_of, text_of, Matcher, Predicate};
use crate::pattern::{glob_match, glob_matches, regex_language};
use crate::text::same_text;
use regex::Regex;
use vstd::prelude::*;

verus! {

/// Whether the field `field` of `context` meets a condition.
///
/// With `missing` set, nothing else counts: the condition holds where the
/// field is absent and `missing` is true, or present and `missing` is false.
/// Otherwise the field must be present, and its value must equal `equals`; or,
/// with no `equals`, be matched by the expression of `language`; or, with
/// neither, be matched whole by `glob`. With none of the three, presence is
/// enough.
pub open spec fn leaf_holds(
    context: Map<Seq<char>, Seq<char>>,
    field: Seq<char>,
    equals: Option<Seq<char>>,
    language: Option<Set<Seq<char>>>,
    glob: Option<Seq<char>>,
    missing: Option<bool>,
) -> bool {
    match missing {
        Some(absent) => !context.contains_key(field) == absent,
        None => context.contains_key(field) && match equals {
            Some(expected) => context[field] == expected,
            None => match language {
                Some(texts) => texts.contains(context[field]),
                None => match glob {
                    Some(pattern) => glob_matches(pattern, context[field]),
                    None => true,
                },
            },
        },
    }
}

/// Whether a predicate holds of a context. A predicate that names no field
/// holds of every context.
pub open spec fn predicate_holds(predicate: Predicate, context: Map<Seq<char>, Seq<char>>) -> bool {
    match predicate.field {
        Some(field) => leaf_holds(
            context,
            field@,
            text_of(predicate.equals),
            language_of(predicate.regex),
            text_of(predicate.glob),
            predicate.missing,
        ),
        None => true,
    }
}

/// Whether every predicate of `predicates` holds of `context`.
pub open spec fn all_hold(predicates: Seq<Predicate>, context: Map<Seq<char>, Seq<char>>) -> bool {
    forall|i: int| 0 <= i < predicates.len() ==> predicate_holds(#[trigger] predicates[i], context)
}

/// Whether some predicate of `predicates` holds of `context`. Of an empty list
/// none does.
pub open spec fn any_holds(predicates: Seq<Predicate>, context: Map<Seq<char>, Seq<char>>) -> bool {
    exists|i: int| 0 <= i < predicates.len() && predicate_holds(#[trigger] predicates[i], context)
}

/// Whether a matcher holds of a context: each of its three blocks, `all`, `any`
/// and the condition on `field`, holds where it is set. A matcher with no
/// block set holds of every context.
pub open spec fn matcher_holds(matcher: Matcher, context: Map<Seq<char>, Seq<char>>) -> bool {
    &&& match matcher.all {
        Some(predicates) => all_hold(predicates@, context),
        None => true,
    }
    &&& match matcher.any {
        Some(predicates) => any_holds(predicates@, context),
        None => true,
    }
    &&& match matcher.field {
        Some(field) => leaf_holds(
            context,
            field@,
            text_of(matcher.equals),
            language_of(matcher.regex),
            text_of(matcher.glob),
            matcher.missing,
        ),
        None => true,
    }
}

/// The view of an optional borrowed string.
pub open spec fn borrowed_text(o: Option<&String>) -> Option<Seq<char>> {
    match o {
        Some(s) => Some(s@),
        None => None,
    }
}

/// The texts that an optional borrowed expression matches.
pub open spec fn borrowed_language(o: Option<&Regex>) -> Option<Set<Seq<char>>> {
    match o {
        Some(re) => Some(regex_language(*re)),
        None => None,
    }
}

/// Evaluates one condition on the field `field` of `context`.
pub fn matches_field_conditions(
    field: &str,
    context: &Context,
    equals: Option<&String>,
    regex: Option<&Regex>,
    glob: Option<&String>,
    missing: Option<bool>,
) -> (b: bool)
    ensures
        b == leaf_holds(
            context@,
            field@,
            borrowed_text(equals),
            borrowed_language(regex),
            borrowed_text(glob),
            missing,
        ),
{
    let value = context.get(field);
    if let Some(should_be_missing) = missing {
        return value.is_none() == should_be_missing;
    }
    let value = match value {
        Some(value) => value,
        None => {
            return false;
        },
    };
    if let Some(expected) = equals {
        return same_text(value.as_str(), expected.as_str());
    }
    if let Some(re) = regex {
        return re.is_match(value.as_str());
    }
    if let Some(pattern) = glob {
        return glob_match(pattern.as_str(), value.as_str());
    }
    true
}

/// Evaluates one predicate against `context`.
pub fn matches_predicate(pred: &Predicate, context: &Context) -> (b: bool)
    ensures
        b == predicate_holds(*pred, context@),
{
    if let Some(field) = &pred.field {
        return matches_field_conditions(
            field.as_str(),
            context,
            pred.equals.as_ref(),
            pred.regex.as_ref(),
            pred.glob.as_ref(),
            pred.missing,
        );
    }
    true
}

/// Whether every predicate of `predicates` holds of `context`.
fn matches_all(predicates: &Vec<Predicate>, context: &Context) -> (b: bool)
    ensures
        b == all_hold(predicates@, context@),
{
    let mut i: usize = 0;
    while i < predicates.len()
        invariant
            i <= predicates.len(),
            forall|j: int| 0 <= j < i ==> predicate_holds(#[trigger] predicates@[j], context@),
        decreases predicates.len() - i,
    {
        if !matches_predicate(&predicates[i], context) {
            return false;
        }
        i += 1;
    }
    true
}

/// Whether some predicate of `predicates` holds of `context`.
fn matches_any(predicates: &Vec<Predicate>, context: &Context) -> (b: bool)
    ensures
        b == any_holds(predicates@, context@),
{
    let mut i: usize = 0;
    while i < predicates.len()
        invariant
            i <= predicates.len(),
            forall|j: int| 0 <= j < i ==> !predicate_holds(#[trigger] predicates@[j], context@),
        decreases predicates.len() - i,
    {
        if matches_predicate(&predicates[i], context) {
            return true;
        }
        i += 1;
    }
    false
}

/// Evaluates the condition of a rule against the fields of an instruction.
pub fn matches_matcher(matcher: &Matcher, context: &Context) -> (b: bool)
    ensures
        b == matcher_holds(*matcher, context@),
{
    if let Some(all) = &matcher.all {
        if !matches_all(all, context) {
            return false;
        }
    }
    if let Some(any) = &matcher.any {
        if !matches_any(any, context) {
            return false;
        }
    }
    if let Some(field) = &matcher.field {
        return matches_field_conditions(
            field.as_str(),
            context,
            matcher.equals.as_ref(),
            matcher.regex.as_ref(),
            matcher.glob.as_ref(),
            matcher.missing,
        );
    }
    true
}

/// A condition with `missing` set to true holds exactly of the contexts that
/// lack the field, and one with `missing` set to false exactly of those that
/// have it, whatever the field's value and whatever else the condition names.
pub proof fn lemma_missing_decides(
    context: Map<Seq<char>, Seq<char>>,
    field: Seq<char>,
    equals: Option<Seq<char>>,
    language: Option<Set<Seq<char>>>,
    glob: Option<Seq<char>>,
)
    ensures
        leaf_holds(context, field, equals, language, glob, Some(true)) <==> !context.contains_key(
            field,
        ),
        leaf_holds(context, field, equals, language, glob, Some(false)) <==> context.contains_key(
            field,
        ),
{
}

} // verus!
