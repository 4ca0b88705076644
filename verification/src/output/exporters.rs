//! The records that are exported, built from findings.

use crate::docker::model::{ContainerInfo, ContainerResult, Finding, RiskLevel};
use crate::text::{decimal, decimal_string, strip_start, strip_start_chars, CharClass};
use vstd::prelude::*;

verus! {

/// One finding on a container, as it is exported.
#[derive(Debug)]
pub struct ExportableContainerFinding {
    pub kind: String,
    pub description: String,
    pub risk: RiskLevel,
}

/// The findings on one container, as they are exported.
#[derive(Debug)]
pub struct ExportableContainerResult {
    pub container_id: String,
    pub container_name: String,
    pub findings: Vec<ExportableContainerFinding>,
}

/// One finding on a Dockerfile, as it is exported.
#[derive(Debug)]
pub struct DockerfileFinding {
    pub id: String,
    pub severity: String,
    pub line: Option<usize>,
    pub description: String,
}

/// One finding on a Dockerfile, as it is exported.
pub type ExportableFinding = DockerfileFinding;

/// The findings on one Dockerfile, with their number for each severity, as
/// they are exported.
#[derive(Debug)]
pub struct DockerfileScanResult {
    pub dockerfile_path: String,
    pub total_findings: usize,
    pub critical_count: usize,
    pub medium_count: usize,
    pub low_count: usize,
    pub info_count: usize,
    pub findings: Vec<DockerfileFinding>,
}

/// The word that a report uses for a risk.
pub open spec fn severity_label(risk: RiskLevel) -> Seq<char> {
    match risk {
        RiskLevel::High => "CRITICAL"@,
        RiskLevel::Medium => "MEDIUM"@,
        RiskLevel::Low => "LOW"@,
        RiskLevel::Informative => "INFO"@,
    }
}

/// The word that a report uses for a risk.
pub fn severity_to_string(risk: &RiskLevel) -> (label: String)
    ensures
        label@ == severity_label(*risk),
{
    match risk {
        RiskLevel::High => "CRITICAL".to_owned(),
        RiskLevel::Medium => "MEDIUM".to_owned(),
        RiskLevel::Low => "LOW".to_owned(),
        RiskLevel::Informative => "INFO".to_owned(),
    }
}

/// The number of findings of `findings` with the risk `risk`.
pub open spec fn count_risk(findings: Seq<Finding>, risk: RiskLevel) -> nat
    decreases findings.len(),
{
    if findings.len() == 0 {
        0
    } else {
        count_risk(findings.drop_last(), risk) + if findings.last().risk == risk {
            1nat
        } else {
            0nat
        }
    }
}

/// The numbers of findings of high, medium, low and informative risk, in this
/// order.
pub fn count_by_severity(findings: &[Finding]) -> (counts: (usize, usize, usize, usize))
    ensures
        counts.0 == count_risk(findings@, RiskLevel::High),
        counts.1 == count_risk(findings@, RiskLevel::Medium),
        counts.2 == count_risk(findings@, RiskLevel::Low),
        counts.3 == count_risk(findings@, RiskLevel::Informative),
        counts.0 + counts.1 + counts.2 + counts.3 == findings@.len(),
{
    let mut critical: usize = 0;
    let mut medium: usize = 0;
    let mut low: usize = 0;
    let mut info: usize = 0;
    let mut i: usize = 0;
    while i < findings.len()
        invariant
            i <= findings.len(),
            critical == count_risk(findings@.take(i as int), RiskLevel::High),
            medium == count_risk(findings@.take(i as int), RiskLevel::Medium),
            low == count_risk(findings@.take(i as int), RiskLevel::Low),
            info == count_risk(findings@.take(i as int), RiskLevel::Informative),
            critical + medium + low + info == i,
        decreases findings.len() - i,
    {
        proof {
            assert(findings@.take(i + 1).drop_last() =~= findings@.take(i as int));
            assert(findings@.take(i + 1).last() == findings@[i as int]);
        }
        match findings[i].risk {
            RiskLevel::High => {
                critical += 1;
            },
            RiskLevel::Medium => {
                medium += 1;
            },
            RiskLevel::Low => {
                low += 1;
            },
            RiskLevel::Informative => {
                info += 1;
            },
        }
        i += 1;
    }
    assert(findings@.take(findings@.len() as int) =~= findings@);
    (critical, medium, low, info)
}

/// Whether `row` is the exported form of `finding`.
pub open spec fn exports(row: DockerfileFinding, finding: Finding) -> bool {
    &&& row.id@ == finding.kind@
    &&& row.severity@ == severity_label(finding.risk)
    &&& row.line == finding.line
    &&& row.description@ == finding.description@
}

/// Whether `rows` are the exported forms of `findings`, one for one.
pub open spec fn exports_all(rows: Seq<DockerfileFinding>, findings: Seq<Finding>) -> bool {
    &&& rows.len() == findings.len()
    &&& forall|i: int| 0 <= i < rows.len() ==> exports(#[trigger] rows[i], findings[i])
}

impl DockerfileFinding {
    /// The exported form of a finding.
    pub fn from_finding(finding: &Finding) -> (row: DockerfileFinding)
        ensures
            exports(row, *finding),
    {
        DockerfileFinding {
            id: finding.kind.clone(),
            severity: severity_to_string(&finding.risk),
            line: finding.line,
            description: finding.description.clone(),
        }
    }
}

impl DockerfileScanResult {
    /// The exported form of the findings on the Dockerfile at `path`.
    pub fn new(path: &str, findings: &[Finding]) -> (result: DockerfileScanResult)
        ensures
            result.dockerfile_path@ == path@,
            result.total_findings == findings@.len(),
            result.critical_count == count_risk(findings@, RiskLevel::High),
            result.medium_count == count_risk(findings@, RiskLevel::Medium),
            result.low_count == count_risk(findings@, RiskLevel::Low),
            result.info_count == count_risk(findings@, RiskLevel::Informative),
            exports_all(result.findings@, findings@),
    {
        let (critical, medium, low, info) = count_by_severity(findings);
        let mut rows: Vec<DockerfileFinding> = Vec::new();
        let mut i: usize = 0;
        while i < findings.len()
            invariant
                i <= findings.len(),
                rows@.len() == i,
                forall|j: int| 0 <= j < i ==> exports(#[trigger] rows@[j], findings@[j]),
            decreases findings.len() - i,
        {
            rows.push(DockerfileFinding::from_finding(&findings[i]));
            i += 1;
        }
        DockerfileScanResult {
            dockerfile_path: path.to_owned(),
            total_findings: findings.len(),
            critical_count: critical,
            medium_count: medium,
            low_count: low,
            info_count: info,
            findings: rows,
        }
    }
}

/// The exported form of the findings on the Dockerfile at `path`.
pub fn dockerfile_to_json(path: &str, findings: &[Finding]) -> (result: DockerfileScanResult)
    ensures
        result.dockerfile_path@ == path@,
        result.total_findings == findings@.len(),
        result.critical_count == count_risk(findings@, RiskLevel::High),
        result.medium_count == count_risk(findings@, RiskLevel::Medium),
        result.low_count == count_risk(findings@, RiskLevel::Low),
        result.info_count == count_risk(findings@, RiskLevel::Informative),
        exports_all(result.findings@, findings@),
{
    DockerfileScanResult::new(path, findings)
}

/// The line of a finding as a table shows it: the number, or a dash where
/// there is none.
pub open spec fn line_label(line: Option<usize>) -> Seq<char> {
    match line {
        Some(n) => decimal(n as nat),
        None => "\u{2014}"@,
    }
}

/// The line of a finding as a table shows it.
pub fn format_line_number(line: Option<usize>) -> (label: String)
    ensures
        label@ == line_label(line),
{
    match line {
        Some(n) => decimal_string(n),
        None => "\u{2014}".to_owned(),
    }
}

/// The id of a container, or the empty text where it has none.
pub open spec fn container_id_text(container: ContainerInfo) -> Seq<char> {
    match container.id {
        Some(id) => id@,
        None => Seq::empty(),
    }
}

/// The name of a container without the slashes in front, or the empty text
/// where it has none.
pub open spec fn container_name_text(container: ContainerInfo) -> Seq<char> {
    match container.name {
        Some(name) => strip_start(name@, CharClass::Slash),
        None => Seq::empty(),
    }
}

/// The id of a container, or the empty text where it has none.
pub fn get_container_id(container: &ContainerInfo) -> (id: String)
    ensures
        id@ == container_id_text(*container),
{
    match &container.id {
        Some(id) => id.clone(),
        None => String::new(),
    }
}

/// The name of a container without the slashes in front.
pub fn get_container_name(container: &ContainerInfo) -> (name: String)
    ensures
        name@ == container_name_text(*container),
{
    match &container.name {
        Some(name) => strip_start_chars(name.as_str(), CharClass::Slash),
        None => String::new(),
    }
}

/// Whether `row` is the exported form of `finding`.
pub open spec fn exports_container_finding(row: ExportableContainerFinding, finding: Finding) -> bool {
    &&& row.kind@ == finding.kind@
    &&& row.description@ == finding.description@
    &&& row.risk == finding.risk
}

/// Whether `rows` are the exported forms of `findings`, one for one.
pub open spec fn exports_container_findings(
    rows: Seq<ExportableContainerFinding>,
    findings: Seq<Finding>,
) -> bool {
    &&& rows.len() == findings.len()
    &&& forall|i: int|
        0 <= i < rows.len() ==> exports_container_finding(#[trigger] rows[i], findings[i])
}

/// Whether `exported` is the exported form of `result`.
pub open spec fn exports_container(exported: ExportableContainerResult, result: ContainerResult) -> bool {
    &&& exported.container_id@ == container_id_text(result.container)
    &&& exported.container_name@ == container_name_text(result.container)
    &&& exports_container_findings(exported.findings@, result.findings@)
}

/// The exported forms of the findings of one container.
fn export_container_findings(findings: &Vec<Finding>) -> (rows: Vec<ExportableContainerFinding>)
    ensures
        exports_container_findings(rows@, findings@),
{
    let mut rows: Vec<ExportableContainerFinding> = Vec::new();
    let mut i: usize = 0;
    while i < findings.len()
        invariant
            i <= findings.len(),
            rows@.len() == i,
            forall|j: int|
                0 <= j < i ==> exports_container_finding(#[trigger] rows@[j], findings@[j]),
        decreases findings.len() - i,
    {
        rows.push(
            ExportableContainerFinding {
                kind: findings[i].kind.clone(),
                description: findings[i].description.clone(),
                risk: findings[i].risk,
            },
        );
        i += 1;
    }
    rows
}

/// The exported forms of the results, container by container.
pub fn containers_to_json(results: &[ContainerResult]) -> (exported: Vec<ExportableContainerResult>)
    ensures
        exported@.len() == results@.len(),
        forall|i: int|
            0 <= i < exported@.len() ==> exports_container(#[trigger] exported@[i], results@[i]),
{
    let mut exported: Vec<ExportableContainerResult> = Vec::new();
    let mut i: usize = 0;
    while i < results.len()
        invariant
            i <= results.len(),
            exported@.len() == i,
            forall|j: int| 0 <= j < i ==> exports_container(#[trigger] exported@[j], results@[j]),
        decreases results.len() - i,
    {
        let result = &results[i];
        exported.push(
            ExportableContainerResult {
                container_id: get_container_id(&result.container),
                container_name: get_container_name(&result.container),
                findings: export_container_findings(&result.findings),
            },
        );
        i += 1;
    }
    exported
}

/// The findings of all the results, one after another.
pub open spec fn all_findings(results: Seq<ContainerResult>) -> Seq<Finding>
    decreases results.len(),
{
    if results.len() == 0 {
        Seq::empty()
    } else {
        all_findings(results.drop_last()) + results.last().findings@
    }
}

/// The exported forms of the findings of all the results, as the rows of one
/// table.
pub fn to_exportable_csv(results: &[ContainerResult]) -> (rows: Vec<ExportableContainerFinding>)
    ensures
        exports_container_findings(rows@, all_findings(results@)),
{
    let mut rows: Vec<ExportableContainerFinding> = Vec::new();
    let mut i: usize = 0;
    assert(results@.take(0) =~= Seq::<ContainerResult>::empty());
    while i < results.len()
        invariant
            i <= results.len(),
            exports_container_findings(rows@, all_findings(results@.take(i as int))),
        decreases results.len() - i,
    {
        proof {
            assert(results@.take(i + 1).drop_last() =~= results@.take(i as int));
            assert(results@.take(i + 1).last() == results@[i as int]);
        }
        let ghost before = rows@;
        let mut more = export_container_findings(&results[i].findings);
        let ghost added = more@;
        rows.append(&mut more);
        assert(rows@ == before + added);
        i += 1;
    }
    assert(results@.take(results@.len() as int) =~= results@);
    rows
}

} // verus!
