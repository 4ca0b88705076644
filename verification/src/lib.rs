//! Rule evaluation engine of a misconfiguration scanner for container runtime
//! state and Dockerfiles.
//!
//! Rules are declarative values. The engine matches them against the inspected
//! state of a container, given as a JSON document, or against the instructions,
//! stages and file of a parsed Dockerfile, and turns the matches into findings
//! with a severity. Every function states what it computes in its contract.

pub mod cli;
pub mod config;
pub mod detectors;
pub mod docker;
pub mod docker_aux;
pub mod idset;
pub mod output;
pub mod pattern;
pub mod plugins;
pub mod selection;
pub mod seqs;
pub mod text;

use crate::cli::SeverityLevel;
use crate::detectors::dockerfile::scanner::{
    borrowed_level,
    borrowed_levels,
    filter_findings_by_severity,
    level_risk,
    names_of,
    reaches_threshold,
    risk_selected,
    severity_level_to_risk,
    should_fail_scan,
};
use crate::docker::model::{finding_views, ContainerResult, Finding, RiskLevel};
use crate::seqs::kept;
use crate::text::copy_strings;
use vstd::prelude::*;

verus! {

/// The value that a caller gives on the command line or, where the caller
/// gives none, the value of the configuration file.
pub fn apply_config_defaults(
    cli_value: &Option<Vec<String>>,
    config_value: &Option<Vec<String>>,
) -> (value: Option<Vec<String>>)
    ensures
        names_of(value) == if cli_value is Some {
            names_of(*cli_value)
        } else {
            names_of(*config_value)
        },
{
    match cli_value {
        Some(names) => Some(copy_strings(names)),
        None => match config_value {
            Some(names) => Some(copy_strings(names)),
            None => None,
        },
    }
}

/// The risk that a caller's severity level stands for.
pub fn severity_to_risk(severity: &SeverityLevel) -> (risk: RiskLevel)
    ensures
        risk == level_risk(*severity),
{
    severity_level_to_risk(severity)
}

/// Keeps, for every container, the findings that pass the selection by
/// severity.
pub fn filter_by_severity(
    results: &mut Vec<ContainerResult>,
    severity: Option<&Vec<SeverityLevel>>,
    min_severity: Option<&SeverityLevel>,
)
    ensures
        final(results)@.len() == old(results)@.len(),
        forall|i: int|
            0 <= i < old(results)@.len() ==> {
                &&& (#[trigger] final(results)@[i]).container == old(results)@[i].container
                &&& final(results)@[i].findings@ == kept(
                    old(results)@[i].findings@,
                    |f: Finding|
                        risk_selected(
                            f.risk,
                            borrowed_levels(severity),
                            borrowed_level(min_severity),
                        ),
                )
            },
{
    let mut i: usize = 0;
    while i < results.len()
        invariant
            i <= results.len(),
            results@.len() == old(results)@.len(),
            forall|j: int| i <= j < results@.len() ==> results@[j] == old(results)@[j],
            forall|j: int|
                0 <= j < i ==> {
                    &&& (#[trigger] results@[j]).container == old(results)@[j].container
                    &&& results@[j].findings@ == kept(
                        old(results)@[j].findings@,
                        |f: Finding|
                            risk_selected(
                                f.risk,
                                borrowed_levels(severity),
                                borrowed_level(min_severity),
                            ),
                    )
                },
        decreases results.len() - i,
    {
        filter_findings_by_severity(&mut results[i].findings, severity, min_severity);
        i += 1;
    }
}

/// Whether some finding of some container reaches the threshold.
pub open spec fn any_reaches_threshold(
    results: Seq<ContainerResult>,
    fail_on: Option<SeverityLevel>,
) -> bool {
    exists|i: int|
        0 <= i < results.len() && reaches_threshold(
            finding_views((#[trigger] results[i]).findings@),
            fail_on,
        )
}

/// Whether the scan of the containers fails: a threshold is set, and some
/// finding of some container has the threshold's risk or a higher one.
pub fn should_fail(results: &[ContainerResult], fail_on: Option<&SeverityLevel>) -> (fails: bool)
    ensures
        fails == any_reaches_threshold(results@, borrowed_level(fail_on)),
{
    let mut i: usize = 0;
    while i < results.len()
        invariant
            i <= results.len(),
            forall|j: int|
                0 <= j < i ==> !reaches_threshold(
                    finding_views((#[trigger] results@[j]).findings@),
                    borrowed_level(fail_on),
                ),
        decreases results.len() - i,
    {
        if should_fail_scan(results[i].findings.as_slice(), fail_on) {
            return true;
        }
        i += 1;
    }
    false
}

} // verus!
