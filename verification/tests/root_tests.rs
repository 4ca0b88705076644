use valeris::cli::SeverityLevel;
use valeris::docker::model::{ContainerInfo, ContainerResult, Finding, RiskLevel};
use valeris::{apply_config_defaults, filter_by_severity, severity_to_risk, should_fail};

fn root_finding(kind: &str, risk: RiskLevel) -> Finding {
    Finding { kind: kind.to_string(), description: "d".to_string(), risk, line: None }
}

fn root_result(id: &str, risks: &[RiskLevel]) -> ContainerResult {
    ContainerResult {
        container: ContainerInfo { id: Some(id.to_string()), ..Default::default() },
        findings: risks.iter().enumerate().map(|(i, r)| root_finding(&format!("{id}{i}"), *r)).collect(),
    }
}

fn root_kinds(result: &ContainerResult) -> Vec<&str> {
    result.findings.iter().map(|f| f.kind.as_str()).collect()
}

#[test]
fn command_line_wins_over_the_configuration_file() {
    let cli = Some(vec!["a".to_string()]);
    let file = Some(vec!["b".to_string(), "c".to_string()]);
    assert_eq!(apply_config_defaults(&cli, &file), cli);
    assert_eq!(apply_config_defaults(&None, &file), file);
    assert_eq!(apply_config_defaults(&cli, &None), cli);
    assert_eq!(apply_config_defaults(&None, &None), None);
    assert_eq!(apply_config_defaults(&Some(vec![]), &file), Some(vec![]));
}

#[test]
fn levels_of_the_command_line_are_risks() {
    assert_eq!(severity_to_risk(&SeverityLevel::Informative), RiskLevel::Informative);
    assert_eq!(severity_to_risk(&SeverityLevel::Low), RiskLevel::Low);
    assert_eq!(severity_to_risk(&SeverityLevel::Medium), RiskLevel::Medium);
    assert_eq!(severity_to_risk(&SeverityLevel::High), RiskLevel::High);
}

#[test]
fn findings_of_every_container_are_filtered() {
    let mut results = vec![
        root_result("a", &[RiskLevel::Low, RiskLevel::High, RiskLevel::Medium]),
        root_result("b", &[RiskLevel::Informative]),
        root_result("c", &[]),
    ];
    filter_by_severity(&mut results, None, Some(&SeverityLevel::Medium));
    assert_eq!(results.len(), 3);
    assert_eq!(root_kinds(&results[0]), vec!["a1", "a2"]);
    assert!(results[1].findings.is_empty());
    assert_eq!(results[1].container.id, Some("b".to_string()));
    assert!(results[2].findings.is_empty());

    let mut results = vec![root_result("a", &[RiskLevel::Low, RiskLevel::High, RiskLevel::Medium])];
    let listed = vec![SeverityLevel::Low, SeverityLevel::Medium];
    filter_by_severity(&mut results, Some(&listed), Some(&SeverityLevel::High));
    assert_eq!(root_kinds(&results[0]), vec!["a0", "a2"]);

    let mut results = vec![root_result("a", &[RiskLevel::Low])];
    filter_by_severity(&mut results, None, None);
    assert_eq!(root_kinds(&results[0]), vec!["a0"]);
}

#[test]
fn scan_of_containers_fails_on_one_finding_at_the_threshold() {
    let results = vec![
        root_result("a", &[RiskLevel::Low]),
        root_result("b", &[RiskLevel::Informative, RiskLevel::Medium]),
    ];
    assert!(!should_fail(&results, Some(&SeverityLevel::High)));
    assert!(should_fail(&results, Some(&SeverityLevel::Medium)));
    assert!(should_fail(&results, Some(&SeverityLevel::Low)));
    assert!(!should_fail(&results, None));
    assert!(!should_fail(&[], Some(&SeverityLevel::Informative)));
    let only_empty = vec![root_result("a", &[])];
    assert!(!should_fail(&only_empty, Some(&SeverityLevel::Informative)));
}

#[test]
fn findings_are_equal_where_all_fields_are() {
    let a = Finding {
        kind: "K".to_string(),
        description: "D".to_string(),
        risk: RiskLevel::Low,
        line: Some(3),
    };
    assert_eq!(a, a.clone());
    assert_ne!(a, Finding { kind: "k".to_string(), ..a.clone() });
    assert_ne!(a, Finding { description: "".to_string(), ..a.clone() });
    assert_ne!(a, Finding { risk: RiskLevel::Medium, ..a.clone() });
    assert_ne!(a, Finding { line: None, ..a.clone() });
    assert_ne!(a, Finding { line: Some(4), ..a.clone() });
    assert!(RiskLevel::Informative < RiskLevel::Low);
    assert!(RiskLevel::Low < RiskLevel::Medium);
    assert!(RiskLevel::Medium < RiskLevel::High);
}
