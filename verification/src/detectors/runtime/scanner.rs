//! The scan of running containers: every selected rule on the JSON document
//! of every container.

use crate::detectors::dockerfile::scanner::{extend_findings, names_known, names_of};
use crate::detectors::runtime::yaml_rules::{
    engine_findings,
    json_text,
    YamlRule,
    YamlRuleEngine,
};
use crate::docker::model::{finding_views, Finding, FindingView};
use crate::idset::IdSet;
use crate::selection::{
    check_selection,
    ids_of,
    passes_selection,
    normalized_set,
    parse_id_set,
    unknown_names,
    UnknownIds,
};
use crate::seqs::kept;
use crate::text::{
    contains_str,
    contains_text,
    lowercase_of,
    strip_start,
    strip_start_chars,
    views,
    CharClass,
};
use serde_json::Value;
use vstd::prelude::*;

verus! {

/// The ids of `rules`, in lower case.
pub open spec fn engine_rule_ids(rules: Seq<YamlRule>) -> Set<Seq<char>> {
    Set::new(
        |t: Seq<char>| exists|i: int| 0 <= i < rules.len() && lowercase_of((#[trigger] rules[i]).id@) == t,
    )
}

/// The ids of the rules of the engine, in lower case.
pub fn collect_rule_ids(engine: &YamlRuleEngine) -> (ids: IdSet)
    ensures
        ids@ == engine_rule_ids(engine@),
{
    let rules = engine.rules();
    let mut ids = IdSet::new();
    let mut i: usize = 0;
    assert(ids@ =~= engine_rule_ids(rules@.take(0)));
    while i < rules.len()
        invariant
            i <= rules.len(),
            ids@ == engine_rule_ids(rules@.take(i as int)),
        decreases rules.len() - i,
    {
        let ghost before = rules@.take(i as int);
        let ghost after = rules@.take(i + 1);
        let ghost added = lowercase_of(rules@[i as int].id@);
        ids.insert(rules[i].id.as_str().to_lowercase());
        proof {
            assert forall|t: Seq<char>|
                engine_rule_ids(after).contains(t) <==> engine_rule_ids(before).insert(
                    added,
                ).contains(t) by {
                if engine_rule_ids(after).contains(t) {
                    let j = choose|j: int|
                        0 <= j < after.len() && lowercase_of((#[trigger] after[j]).id@) == t;
                    if j < i {
                        assert(before[j] == after[j]);
                    }
                }
                if engine_rule_ids(before).contains(t) {
                    let j = choose|j: int|
                        0 <= j < before.len() && lowercase_of((#[trigger] before[j]).id@) == t;
                    assert(after[j] == before[j]);
                }
                if t == added {
                    assert(after[i as int] == rules@[i as int]);
                }
            }
            assert(ids@ =~= engine_rule_ids(after));
        }
        i += 1;
    }
    assert(rules@.take(rules@.len() as int) =~= rules@);
    ids
}

/// Whether the rule with id `id` is selected: its id in lower case is in
/// `only`, where `only` is given, and not in `exclude`, where `exclude` is
/// given.
pub open spec fn id_passes(
    id: Seq<char>,
    only: Option<Set<Seq<char>>>,
    exclude: Option<Set<Seq<char>>>,
) -> bool {
    &&& match only {
        Some(ids) => ids.contains(lowercase_of(id)),
        None => true,
    }
    &&& match exclude {
        Some(ids) => !ids.contains(lowercase_of(id)),
        None => true,
    }
}

/// Where a caller gives `only` or `exclude` but not both, the two dialects
/// select the same rules.
pub proof fn lemma_selection_agrees(
    id: Seq<char>,
    only: Option<Seq<Seq<char>>>,
    exclude: Option<Seq<Seq<char>>>,
)
    requires
        only is None || exclude is None,
    ensures
        id_passes(id, named_set(only), named_set(exclude))
            == crate::detectors::dockerfile::scanner::rule_selected(id, only, exclude),
{
}

/// The findings of the selected rules of `rules` on a document, rule by rule.
pub open spec fn selected_engine_findings(
    rules: Seq<YamlRule>,
    document: Seq<char>,
    only: Option<Set<Seq<char>>>,
    exclude: Option<Set<Seq<char>>>,
) -> Seq<FindingView> {
    engine_findings(kept(rules, |rule: YamlRule| id_passes(rule.id@, only, exclude)), document)
}

/// Runs the selected rules of the engine on the JSON document of one
/// container.
pub fn run_detectors_on_container(
    container: &Value,
    engine: &YamlRuleEngine,
    only: &Option<IdSet>,
    exclude: &Option<IdSet>,
) -> (findings: Vec<Finding>)
    ensures
        finding_views(findings@) == selected_engine_findings(
            engine@,
            json_text(*container),
            ids_of(*only),
            ids_of(*exclude),
        ),
{
    let rules = engine.rules();
    let ghost keep = |rule: YamlRule| id_passes(rule.id@, ids_of(*only), ids_of(*exclude));
    let ghost document = json_text(*container);
    let mut findings: Vec<Finding> = Vec::new();
    let mut i: usize = 0;
    proof {
        assert(finding_views(findings@) =~= Seq::<FindingView>::empty());
        assert(rules@.take(0) =~= Seq::<YamlRule>::empty());
    }
    while i < rules.len()
        invariant
            i <= rules.len(),
            document == json_text(*container),
            keep == (|rule: YamlRule| id_passes(rule.id@, ids_of(*only), ids_of(*exclude))),
            finding_views(findings@) == engine_findings(kept(rules@.take(i as int), keep), document),
        decreases rules.len() - i,
    {
        let ghost chosen = kept(rules@.take(i as int), keep);
        proof {
            assert(rules@.take(i + 1).drop_last() =~= rules@.take(i as int));
            assert(rules@.take(i + 1).last() == rules@[i as int]);
            assert(chosen.push(rules@[i as int]).drop_last() =~= chosen);
        }
        let id = rules[i].id.as_str().to_lowercase();
        if passes_selection(id.as_str(), only, exclude) {
            let found = engine.scan_with_rule(&rules[i], container);
            extend_findings(&mut findings, found);
        }
        i += 1;
    }
    assert(rules@.take(rules@.len() as int) =~= rules@);
    findings
}

/// The set of the normalized forms of an optional list of names.
pub open spec fn named_set(names: Option<Seq<Seq<char>>>) -> Option<Set<Seq<char>>> {
    match names {
        Some(list) => Some(normalized_set(list)),
        None => None,
    }
}

/// Scans the JSON documents of a list of containers.
///
/// The ids of `only` and `exclude` are checked first: where one of them names
/// no rule of the engine nothing is scanned, and the error lists the unknown
/// ids of `only` or, where `only` has none, those of `exclude`. Otherwise the
/// result holds, for each document in order, the findings of the selected
/// rules on it.
pub fn scan_docker_with_yaml_detectors(
    engine: &YamlRuleEngine,
    containers: &Vec<Value>,
    only: Option<Vec<String>>,
    exclude: Option<Vec<String>>,
) -> (r: Result<Vec<Vec<Finding>>, UnknownIds>)
    ensures
        r is Ok <==> names_known(engine_rule_ids(engine@), names_of(only)) && names_known(
            engine_rule_ids(engine@),
            names_of(exclude),
        ),
        match r {
            Ok(results) => {
                &&& results@.len() == containers@.len()
                &&& forall|i: int|
                    0 <= i < results@.len() ==> finding_views((#[trigger] results@[i])@)
                        == selected_engine_findings(
                        engine@,
                        json_text(containers@[i]),
                        named_set(names_of(only)),
                        named_set(names_of(exclude)),
                    )
            },
            Err(e) => if !names_known(engine_rule_ids(engine@), names_of(only)) {
                e.flag@ == "--only"@ && views(e.ids@) == unknown_names(
                    engine_rule_ids(engine@),
                    names_of(only)->Some_0,
                )
            } else {
                e.flag@ == "--exclude"@ && views(e.ids@) == unknown_names(
                    engine_rule_ids(engine@),
                    names_of(exclude)->Some_0,
                )
            },
        },
{
    let rule_ids = collect_rule_ids(engine);
    match check_selection(&rule_ids, &only, "--only") {
        Ok(_) => {},
        Err(e) => {
            return Err(e);
        },
    }
    match check_selection(&rule_ids, &exclude, "--exclude") {
        Ok(_) => {},
        Err(e) => {
            return Err(e);
        },
    }
    let only_set = parse_id_set(&only);
    let exclude_set = parse_id_set(&exclude);
    let mut results: Vec<Vec<Finding>> = Vec::new();
    let mut i: usize = 0;
    while i < containers.len()
        invariant
            i <= containers.len(),
            results@.len() == i,
            ids_of(only_set) == named_set(names_of(only)),
            ids_of(exclude_set) == named_set(names_of(exclude)),
            forall|j: int|
                0 <= j < i ==> finding_views((#[trigger] results@[j])@) == selected_engine_findings(
                    engine@,
                    json_text(containers@[j]),
                    named_set(names_of(only)),
                    named_set(names_of(exclude)),
                ),
        decreases containers.len() - i,
    {
        let findings = run_detectors_on_container(&containers[i], engine, &only_set, &exclude_set);
        results.push(findings);
        i += 1;
    }
    Ok(results)
}

/// What the daemon lists of a container, before it is inspected.
#[derive(Debug)]
pub struct ContainerSummary {
    pub id: Option<String>,
    /// The names of the container, as the daemon gives them: with `/` in front.
    pub names: Option<Vec<String>>,
    pub state: Option<String>,
}

/// Whether a container passes the filter by state: there is no filter, or the
/// container has no state, or its state in lower case is in the filter.
pub open spec fn state_passes(state: Option<String>, filter: Option<Set<Seq<char>>>) -> bool {
    match (filter, state) {
        (Some(states), Some(s)) => states.contains(lowercase_of(s@)),
        _ => true,
    }
}

/// Whether `text`, in lower case, holds one of `patterns`.
pub open spec fn holds_pattern(text: Seq<char>, patterns: Seq<Seq<char>>) -> bool {
    exists|k: int| 0 <= k < patterns.len() && contains_text(lowercase_of(text), #[trigger] patterns[k])
}

/// Whether one of `names`, without the slashes in front, holds one of
/// `patterns`.
pub open spec fn name_holds_pattern(names: Seq<String>, patterns: Seq<Seq<char>>) -> bool {
    exists|n: int|
        0 <= n < names.len() && holds_pattern(
            strip_start((#[trigger] names[n])@, CharClass::Slash),
            patterns,
        )
}

/// Whether a container passes the filter by pattern: there is no filter, or
/// its id or one of its names holds one of the patterns.
pub open spec fn pattern_passes(
    id: Option<String>,
    names: Option<Vec<String>>,
    patterns: Option<Seq<Seq<char>>>,
) -> bool {
    match patterns {
        Some(list) => (id matches Some(text) && holds_pattern(text@, list)) || (names matches Some(
            all,
        ) && name_holds_pattern(all@, list)),
        None => true,
    }
}

/// Whether a listed container is to be scanned: it has an id, and it passes
/// the filter by state and the filter by pattern.
pub open spec fn container_selected(
    container: ContainerSummary,
    state_filter: Option<Set<Seq<char>>>,
    patterns: Option<Seq<Seq<char>>>,
) -> bool {
    &&& container.id is Some
    &&& state_passes(container.state, state_filter)
    &&& pattern_passes(container.id, container.names, patterns)
}

/// The identifiers of an optional borrowed set.
pub open spec fn borrowed_ids(set: Option<&IdSet>) -> Option<Set<Seq<char>>> {
    match set {
        Some(ids) => Some(ids@),
        None => None,
    }
}

/// Whether `text`, in lower case, holds one of `patterns`.
fn text_holds_pattern(text: &str, patterns: &Vec<String>) -> (b: bool)
    ensures
        b == holds_pattern(text@, views(patterns@)),
{
    let lower = text.to_lowercase();
    let mut k: usize = 0;
    while k < patterns.len()
        invariant
            k <= patterns.len(),
            lower@ == lowercase_of(text@),
            forall|j: int| 0 <= j < k ==> !contains_text(lower@, #[trigger] views(patterns@)[j]),
        decreases patterns.len() - k,
    {
        assert(views(patterns@)[k as int] == patterns@[k as int]@);
        if contains_str(lower.as_str(), patterns[k].as_str()) {
            return true;
        }
        k += 1;
    }
    false
}

/// Whether one of `names`, without the slashes in front, holds one of
/// `patterns`.
fn names_hold_pattern(names: &Vec<String>, patterns: &Vec<String>) -> (b: bool)
    ensures
        b == name_holds_pattern(names@, views(patterns@)),
{
    let mut n: usize = 0;
    while n < names.len()
        invariant
            n <= names.len(),
            forall|j: int|
                0 <= j < n ==> !holds_pattern(
                    strip_start((#[trigger] names@[j])@, CharClass::Slash),
                    views(patterns@),
                ),
        decreases names.len() - n,
    {
        let name = strip_start_chars(names[n].as_str(), CharClass::Slash);
        if text_holds_pattern(name.as_str(), patterns) {
            return true;
        }
        n += 1;
    }
    false
}

/// Whether a listed container is to be scanned.
pub fn is_selected(
    container: &ContainerSummary,
    state_filter: Option<&IdSet>,
    container_patterns: Option<&Vec<String>>,
) -> (b: bool)
    ensures
        b == container_selected(
            *container,
            borrowed_ids(state_filter),
            crate::detectors::dockerfile::scanner::borrowed_names(container_patterns),
        ),
{
    if container.id.is_none() {
        return false;
    }
    if let Some(filter) = state_filter {
        if let Some(state) = &container.state {
            let lower = state.as_str().to_lowercase();
            if !filter.contains(lower.as_str()) {
                return false;
            }
        }
    }
    if let Some(patterns) = container_patterns {
        if let Some(id) = &container.id {
            if text_holds_pattern(id.as_str(), patterns) {
                return true;
            }
        }
        if let Some(names) = &container.names {
            if names_hold_pattern(names, patterns) {
                return true;
            }
        }
        return false;
    }
    true
}

} // verus!
