//! The parts of a printed report that are computed from findings.

use crate::docker::model::{ContainerInfo, Finding, RiskLevel};
use crate::output::exporters::{
    count_by_severity,
    count_risk,
    format_line_number,
    line_label,
    severity_label,
    severity_to_string,
};
use crate::text::{
    chars_of,
    contains_str,
    contains_text,
    decimal,
    push_decimal,
    push_str_chars,
    same_text,
    string_of,
    strip_start,
    strip_start_chars,
    views,
    CharClass,
};
use vstd::prelude::*;

verus! {

/// The numbers of findings for each severity.
#[derive(Debug, Clone, Copy, PartialEq, Eq)]
pub struct SeverityCounts {
    pub critical: usize,
    pub medium: usize,
    pub low: usize,
    pub info: usize,
}

/// The numbers of findings for each severity.
pub fn count_findings_by_severity(findings: &[Finding]) -> (counts: SeverityCounts)
    ensures
        counts.critical == count_risk(findings@, RiskLevel::High),
        counts.medium == count_risk(findings@, RiskLevel::Medium),
        counts.low == count_risk(findings@, RiskLevel::Low),
        counts.info == count_risk(findings@, RiskLevel::Informative),
{
    let (critical, medium, low, info) = count_by_severity(findings);
    SeverityCounts { critical, medium, low, info }
}

/// One part of a summary: a number and the word for what was counted.
pub open spec fn summary_part(count: usize, word: Seq<char>) -> Seq<char> {
    decimal(count as nat) + " "@ + word
}

/// The count and the word of `part`, where the count is not zero.
pub open spec fn part_if_any(count: usize, word: Seq<char>) -> Seq<Seq<char>> {
    if count > 0 {
        seq![summary_part(count, word)]
    } else {
        Seq::empty()
    }
}

/// The parts of a summary: for each severity that has findings, from the
/// highest down, their number and the severity's word.
pub open spec fn summary_parts(counts: SeverityCounts) -> Seq<Seq<char>> {
    part_if_any(counts.critical, "critical"@) + part_if_any(counts.medium, "medium"@)
        + part_if_any(counts.low, "low"@) + part_if_any(counts.info, "info"@)
}

/// Appends the part for `count` and `word`, where the count is not zero.
fn push_part(parts: &mut Vec<String>, count: usize, word: &str)
    ensures
        views(final(parts)@) == views(old(parts)@) + part_if_any(count, word@),
{
    if count > 0 {
        let mut out: Vec<char> = Vec::new();
        push_decimal(&mut out, count);
        push_str_chars(&mut out, " ");
        push_str_chars(&mut out, word);
        assert(out@ =~= summary_part(count, word@));
        let part = string_of(&out);
        parts.push(part);
        assert(views(parts@) =~= views(old(parts)@) + part_if_any(count, word@));
    } else {
        assert(views(parts@) =~= views(old(parts)@) + part_if_any(count, word@));
    }
}

/// The parts of a summary of the counts.
pub fn build_summary_parts(counts: &SeverityCounts) -> (parts: Vec<String>)
    ensures
        views(parts@) == summary_parts(*counts),
{
    let mut parts: Vec<String> = Vec::new();
    assert(views(parts@) =~= Seq::<Seq<char>>::empty());
    push_part(&mut parts, counts.critical, "critical");
    push_part(&mut parts, counts.medium, "medium");
    push_part(&mut parts, counts.low, "low");
    push_part(&mut parts, counts.info, "info");
    assert(views(parts@) =~= summary_parts(*counts));
    parts
}

/// The name under which a container is reported: its name without the
/// slashes in front, or `<none>` where it has no name.
pub open spec fn display_name_of(container: ContainerInfo) -> Seq<char> {
    match container.name {
        Some(name) => strip_start(name@, CharClass::Slash),
        None => "<none>"@,
    }
}

/// The image under which a container is reported: its image, with the tag
/// `latest` where the image names none, or `<unknown>:latest` where it has no
/// image.
pub open spec fn image_label_of(container: ContainerInfo) -> Seq<char> {
    let image = match container.image {
        Some(image) => image@,
        None => "<unknown>"@,
    };
    if contains_text(image, ":"@) {
        image
    } else {
        image + ":latest"@
    }
}

/// The word for the state of a container: the usual states with a capital
/// letter, any other state as it is, and `unknown` where there is none.
pub open spec fn status_label_of(state: Option<String>) -> Seq<char> {
    match state {
        Some(text) => if text@ == "RUNNING"@ {
            "Running"@
        } else if text@ == "EXITED"@ {
            "Exited"@
        } else if text@ == "PAUSED"@ {
            "Paused"@
        } else if text@ == "CREATED"@ {
            "Created"@
        } else {
            text@
        },
        None => "unknown"@,
    }
}

/// The name under which a container is reported.
pub fn display_name(container: &ContainerInfo) -> (name: String)
    ensures
        name@ == display_name_of(*container),
{
    match &container.name {
        Some(name) => strip_start_chars(name.as_str(), CharClass::Slash),
        None => "<none>".to_owned(),
    }
}

/// The image under which a container is reported.
pub fn image_label(container: &ContainerInfo) -> (label: String)
    ensures
        label@ == image_label_of(*container),
{
    let image = match &container.image {
        Some(image) => image.clone(),
        None => "<unknown>".to_owned(),
    };
    if contains_str(image.as_str(), ":") {
        image
    } else {
        let mut out = chars_of(image.as_str());
        push_str_chars(&mut out, ":latest");
        string_of(&out)
    }
}

/// The word for the state of a container.
pub fn status_label(state: &Option<String>) -> (label: String)
    ensures
        label@ == status_label_of(*state),
{
    match state {
        Some(text) => {
            if same_text(text.as_str(), "RUNNING") {
                "Running".to_owned()
            } else if same_text(text.as_str(), "EXITED") {
                "Exited".to_owned()
            } else if same_text(text.as_str(), "PAUSED") {
                "Paused".to_owned()
            } else if same_text(text.as_str(), "CREATED") {
                "Created".to_owned()
            } else {
                text.clone()
            }
        },
        None => "unknown".to_owned(),
    }
}

/// The cells of the row of a finding in a table: its severity, its rule, its
/// line where the table has lines, and its description.
pub open spec fn finding_cells_of(finding: Finding, with_line: bool) -> Seq<Seq<char>> {
    if with_line {
        seq![
            severity_label(finding.risk),
            finding.kind@,
            line_label(finding.line),
            finding.description@,
        ]
    } else {
        seq![severity_label(finding.risk), finding.kind@, finding.description@]
    }
}

/// The cells of the row of a finding in a table.
pub fn finding_cells(finding: &Finding, with_line: bool) -> (cells: Vec<String>)
    ensures
        views(cells@) == finding_cells_of(*finding, with_line),
{
    let mut cells: Vec<String> = Vec::new();
    cells.push(severity_to_string(&finding.risk));
    cells.push(finding.kind.clone());
    if with_line {
        cells.push(format_line_number(finding.line));
    }
    cells.push(finding.description.clone());
    assert(views(cells@) =~= finding_cells_of(*finding, with_line));
    cells
}

} // verus!
