//! Selection of checks by id, where the ids come as one text with commas.

use crate::idset::IdSet;
use crate::selection::{
    ids_of,
    normalized_all,
    normalized_ids,
    normalized_set,
    passes_selection,
    unknown_ids,
    validate_named_ids,
    IdKind,
    UnknownIds,
};
use crate::detectors::dockerfile::scanner::extend_findings;
use crate::detectors::runtime::scanner::id_passes;
use crate::docker::model::{finding_views, ContainerInfo, ContainerResult, Finding, FindingView};
use crate::plugins::{
    all_plugins,
    load_plugins_for_target,
    serves,
    Plugin,
    PluginTarget,
    ScanInput,
};
use crate::text::{distinct, lowercase_of, split_commas, split_on_commas, views};
use vstd::prelude::*;

verus! {

/// The set of the ids that a text with commas names, each in normalized form;
/// `None` where there is no text.
pub fn parse_id_set(input: &Option<String>) -> (r: Option<IdSet>)
    ensures
        match input {
            Some(list) => r is Some && r->Some_0@ == normalized_set(split_commas(list@))
                && r->Some_0.in_order() == distinct(normalized_all(split_commas(list@))),
            None => r is None,
        },
{
    match input {
        Some(list) => {
            let pieces = split_on_commas(list.as_str());
            Some(normalized_ids(&pieces))
        },
        None => None,
    }
}

/// Checks that every plugin id of `provided` is one of `available`.
///
/// Without `provided` there is nothing to check. Otherwise the check fails
/// where some id is not available, and the error lists every such id.
pub fn validate_plugin_ids(available: &IdSet, provided: &Option<IdSet>, flag: &str) -> (r: Result<
    (),
    UnknownIds,
>)
    ensures
        match provided {
            Some(ids) => match r {
                Ok(_) => ids@.subset_of(available@),
                Err(e) => {
                    &&& !ids@.subset_of(available@)
                    &&& views(e.ids@) == unknown_ids(available@, ids.in_order())
                    &&& views(e.ids@).len() > 0
                    &&& e.flag@ == flag@
                    &&& e.what == IdKind::Plugin
                },
            },
            None => r is Ok,
        },
{
    validate_named_ids(available, provided, flag, IdKind::Plugin)
}

/// The ids of `plugins`, in lower case.
pub open spec fn plugin_ids(plugins: Seq<Plugin>) -> Set<Seq<char>> {
    Set::new(
        |t: Seq<char>|
            exists|i: int| 0 <= i < plugins.len() && lowercase_of((#[trigger] plugins[i]).spec_id()) == t,
    )
}

/// The ids of the checks, in lower case.
pub fn collect_plugin_ids(plugins: &[Plugin]) -> (ids: IdSet)
    ensures
        ids@ == plugin_ids(plugins@),
{
    let mut ids = IdSet::new();
    let mut i: usize = 0;
    assert(ids@ =~= plugin_ids(plugins@.take(0)));
    while i < plugins.len()
        invariant
            i <= plugins.len(),
            ids@ == plugin_ids(plugins@.take(i as int)),
        decreases plugins.len() - i,
    {
        let ghost before = plugins@.take(i as int);
        let ghost after = plugins@.take(i + 1);
        let ghost added = lowercase_of(plugins@[i as int].spec_id());
        ids.insert(plugins[i].id().to_lowercase());
        proof {
            assert forall|t: Seq<char>|
                plugin_ids(after).contains(t) <==> plugin_ids(before).insert(added).contains(t) by {
                if plugin_ids(after).contains(t) {
                    let j = choose|j: int|
                        0 <= j < after.len() && lowercase_of((#[trigger] after[j]).spec_id()) == t;
                    if j < i {
                        assert(before[j] == after[j]);
                    }
                }
                if plugin_ids(before).contains(t) {
                    let j = choose|j: int|
                        0 <= j < before.len() && lowercase_of((#[trigger] before[j]).spec_id()) == t;
                    assert(after[j] == before[j]);
                }
                if t == added {
                    assert(after[i as int] == plugins@[i as int]);
                }
            }
            assert(ids@ =~= plugin_ids(after));
        }
        i += 1;
    }
    assert(plugins@.take(plugins@.len() as int) =~= plugins@);
    ids
}

/// Whether a check is run on a Docker container: it is for Docker or for both
/// platforms, and its id is selected.
pub open spec fn plugin_runs(
    plugin: Plugin,
    only: Option<Set<Seq<char>>>,
    exclude: Option<Set<Seq<char>>>,
) -> bool {
    &&& plugin.spec_target() == PluginTarget::Docker || plugin.spec_target() == PluginTarget::Both
    &&& id_passes(plugin.spec_id(), only, exclude)
}

/// The findings of the checks that are run on a container, check by check.
pub open spec fn plugin_findings(
    plugins: Seq<Plugin>,
    container: ContainerInfo,
    only: Option<Set<Seq<char>>>,
    exclude: Option<Set<Seq<char>>>,
) -> Seq<FindingView>
    decreases plugins.len(),
{
    if plugins.len() == 0 {
        Seq::empty()
    } else if plugin_runs(plugins.last(), only, exclude) {
        plugin_findings(plugins.drop_last(), container, only, exclude) + plugins.last().findings(
            container,
        )
    } else {
        plugin_findings(plugins.drop_last(), container, only, exclude)
    }
}

/// Runs the selected checks on one container.
pub fn run_plugins_on_container(
    input: &ScanInput,
    plugins: &[Plugin],
    only: &Option<IdSet>,
    exclude: &Option<IdSet>,
) -> (findings: Vec<Finding>)
    ensures
        finding_views(findings@) == plugin_findings(
            plugins@,
            input.container(),
            ids_of(*only),
            ids_of(*exclude),
        ),
{
    let mut findings: Vec<Finding> = Vec::new();
    let mut i: usize = 0;
    proof {
        assert(finding_views(findings@) =~= Seq::<FindingView>::empty());
        assert(plugins@.take(0) =~= Seq::<Plugin>::empty());
    }
    while i < plugins.len()
        invariant
            i <= plugins.len(),
            finding_views(findings@) == plugin_findings(
                plugins@.take(i as int),
                input.container(),
                ids_of(*only),
                ids_of(*exclude),
            ),
        decreases plugins.len() - i,
    {
        proof {
            assert(plugins@.take(i + 1).drop_last() =~= plugins@.take(i as int));
            assert(plugins@.take(i + 1).last() == plugins@[i as int]);
        }
        let plugin = &plugins[i];
        let target = plugin.target();
        if target == PluginTarget::Docker || target == PluginTarget::Both {
            let id = plugin.id().to_lowercase();
            if passes_selection(id.as_str(), only, exclude) {
                let found = plugin.run(input);
                extend_findings(&mut findings, found);
            }
        }
        i += 1;
    }
    assert(plugins@.take(plugins@.len() as int) =~= plugins@);
    findings
}

/// The set of the normalized ids that an optional text with commas names.
pub open spec fn named_ids(list: Option<String>) -> Option<Set<Seq<char>>> {
    match list {
        Some(text) => Some(normalized_set(split_commas(text@))),
        None => None,
    }
}

/// The normalized ids that an optional text with commas names, each once, in
/// the order of their first occurrences.
pub open spec fn ids_in_order(list: Option<String>) -> Seq<Seq<char>> {
    match list {
        Some(text) => distinct(normalized_all(split_commas(text@))),
        None => Seq::empty(),
    }
}

/// Whether every id of an optional set is the id of one of `plugins`.
pub open spec fn ids_known(plugins: Seq<Plugin>, ids: Option<Set<Seq<char>>>) -> bool {
    match ids {
        Some(set) => set.subset_of(plugin_ids(plugins)),
        None => true,
    }
}

/// Runs the checks for `target` on a list of inspected containers.
///
/// `only` and `exclude` name ids with commas between them. They are checked
/// first: where one of them names no check nothing is run, and the error
/// lists the unknown ids of `only` or, where `only` has none, those of
/// `exclude`. Otherwise the result holds each container with the findings of
/// the selected checks on it.
pub fn scan_with_plugins_on_containers(
    containers: Vec<ContainerInfo>,
    target: PluginTarget,
    only: Option<String>,
    exclude: Option<String>,
) -> (r: Result<Vec<ContainerResult>, UnknownIds>)
    ensures
        r is Ok <==> ids_known(plugins_for(target), named_ids(only)) && ids_known(
            plugins_for(target),
            named_ids(exclude),
        ),
        match r {
            Ok(results) => {
                &&& results@.len() == containers@.len()
                &&& forall|i: int|
                    0 <= i < results@.len() ==> {
                        &&& (#[trigger] results@[i]).container == containers@[i]
                        &&& finding_views(results@[i].findings@) == plugin_findings(
                            plugins_for(target),
                            containers@[i],
                            named_ids(only),
                            named_ids(exclude),
                        )
                    }
            },
            Err(e) => e.what == IdKind::Plugin && if !ids_known(
                plugins_for(target),
                named_ids(only),
            ) {
                e.flag@ == "--only"@ && views(e.ids@) == unknown_ids(
                    plugin_ids(plugins_for(target)),
                    ids_in_order(only),
                )
            } else {
                e.flag@ == "--exclude"@ && views(e.ids@) == unknown_ids(
                    plugin_ids(plugins_for(target)),
                    ids_in_order(exclude),
                )
            },
        },
{
    let plugins = load_plugins_for_target(target);
    let available = collect_plugin_ids(plugins.as_slice());
    let only_set = parse_id_set(&only);
    let exclude_set = parse_id_set(&exclude);
    match validate_plugin_ids(&available, &only_set, "--only") {
        Ok(_) => {},
        Err(e) => {
            return Err(e);
        },
    }
    match validate_plugin_ids(&available, &exclude_set, "--exclude") {
        Ok(_) => {},
        Err(e) => {
            return Err(e);
        },
    }
    let mut results: Vec<ContainerResult> = Vec::new();
    let ghost all = containers@;
    for container in it: containers
        invariant
            it.seq() == all,
            plugins@ == plugins_for(target),
            ids_of(only_set) == named_ids(only),
            ids_of(exclude_set) == named_ids(exclude),
            results@.len() == it.index(),
            forall|j: int|
                0 <= j < it.index() ==> {
                    &&& (#[trigger] results@[j]).container == all[j]
                    &&& finding_views(results@[j].findings@) == plugin_findings(
                        plugins_for(target),
                        all[j],
                        named_ids(only),
                        named_ids(exclude),
                    )
                },
    {
        let input = ScanInput::DockerContainer(container);
        let findings = run_plugins_on_container(&input, plugins.as_slice(), &only_set, &exclude_set);
        let ScanInput::DockerContainer(container) = input;
        results.push(ContainerResult { container, findings });
    }
    Ok(results)
}

/// The checks for a platform.
pub open spec fn plugins_for(target: PluginTarget) -> Seq<Plugin> {
    crate::seqs::kept(all_plugins(), |p: Plugin| serves(p.spec_target(), target))
}

} // verus!
