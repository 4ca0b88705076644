use valeris::docker::model::{ContainerInfo, ContainerResult, Finding, Mount, RiskLevel};
use valeris::docker_aux::analyze_mounts;
use valeris::output::exporters::{
    containers_to_json, count_by_severity, dockerfile_to_json, format_line_number,
    get_container_id, get_container_name, severity_to_string, to_exportable_csv,
    DockerfileScanResult,
};
use valeris::output::printer::{
    build_summary_parts, count_findings_by_severity, display_name, finding_cells, image_label,
    status_label,
};

fn export_mock_finding(id: &str, severity: RiskLevel, line: Option<usize>) -> Finding {
    Finding {
        kind: id.to_string(),
        description: format!("Test finding for {}", id),
        risk: severity,
        line,
    }
}

fn export_mock_container(id: &str, name: &str) -> ContainerInfo {
    ContainerInfo {
        id: Some(id.to_string()),
        name: Some(name.to_string()),
        ..Default::default()
    }
}

fn export_container_finding(kind: &str, description: &str, risk: RiskLevel) -> Finding {
    Finding {
        kind: kind.to_string(),
        description: description.to_string(),
        risk,
        line: None,
    }
}

#[test]
fn test_count_by_severity() {
    let findings = vec![
        export_mock_finding("DF001", RiskLevel::High, Some(1)),
        export_mock_finding("DF002", RiskLevel::High, Some(2)),
        export_mock_finding("DF003", RiskLevel::Medium, Some(3)),
        export_mock_finding("DF004", RiskLevel::Low, Some(4)),
    ];

    let (critical, medium, low, info) = count_by_severity(&findings);
    assert_eq!(critical, 2);
    assert_eq!(medium, 1);
    assert_eq!(low, 1);
    assert_eq!(info, 0);
}

#[test]
fn test_to_exportable_json_single_result() {
    let container = export_mock_container("abc123", "/my-container");
    let finding = export_container_finding("secrets", "API key found", RiskLevel::High);

    let result = ContainerResult {
        container,
        findings: vec![finding],
    };

    let json_result = containers_to_json(&[result]);
    assert_eq!(json_result.len(), 1);
    assert_eq!(json_result[0].container_id, "abc123");
    assert_eq!(json_result[0].container_name, "my-container");
    assert_eq!(json_result[0].findings.len(), 1);
    assert_eq!(json_result[0].findings[0].risk, RiskLevel::High);
}

#[test]
fn test_to_exportable_csv_flattening() {
    let container = export_mock_container("c1", "/csv-test");
    let f1 = export_container_finding("mount", "mounted /proc", RiskLevel::Medium);
    let f2 = export_container_finding("capabilities", "SYS_ADMIN present", RiskLevel::High);

    let result = ContainerResult {
        container,
        findings: vec![f1, f2],
    };

    let csv_rows = to_exportable_csv(&[result]);
    assert_eq!(csv_rows.len(), 2);
    assert_eq!(csv_rows[0].kind, "mount");
    assert_eq!(csv_rows[1].kind, "capabilities");
}

#[test]
fn scan_result_counts_and_rows() {
    let findings = vec![
        export_mock_finding("DF001", RiskLevel::Medium, Some(1)),
        export_mock_finding("DF002", RiskLevel::High, Some(5)),
        export_mock_finding("DF003", RiskLevel::Informative, None),
    ];
    let result = DockerfileScanResult::new("test.Dockerfile", &findings);
    assert_eq!(result.dockerfile_path, "test.Dockerfile");
    assert_eq!(result.total_findings, 3);
    assert_eq!(result.critical_count, 1);
    assert_eq!(result.medium_count, 1);
    assert_eq!(result.low_count, 0);
    assert_eq!(result.info_count, 1);
    assert_eq!(result.findings.len(), 3);
    assert_eq!(result.findings[0].id, "DF001");
    assert_eq!(result.findings[0].severity, "MEDIUM");
    assert_eq!(result.findings[0].line, Some(1));
    assert_eq!(result.findings[1].severity, "CRITICAL");
    assert_eq!(result.findings[2].severity, "INFO");
    assert_eq!(result.findings[2].line, None);
    assert_eq!(result.findings[2].description, "Test finding for DF003");
    let same = dockerfile_to_json("test.Dockerfile", &findings);
    assert_eq!(same.total_findings, 3);
    assert_eq!(same.findings[1].id, "DF002");
}

#[test]
fn severity_words() {
    assert_eq!(severity_to_string(&RiskLevel::High), "CRITICAL");
    assert_eq!(severity_to_string(&RiskLevel::Medium), "MEDIUM");
    assert_eq!(severity_to_string(&RiskLevel::Low), "LOW");
    assert_eq!(severity_to_string(&RiskLevel::Informative), "INFO");
}

#[test]
fn line_numbers_as_text() {
    assert_eq!(format_line_number(Some(0)), "0");
    assert_eq!(format_line_number(Some(7)), "7");
    assert_eq!(format_line_number(Some(120)), "120");
    assert_eq!(format_line_number(Some(4096)), "4096");
    assert_eq!(format_line_number(None), "\u{2014}");
}

#[test]
fn container_names_lose_their_slashes() {
    let c = export_mock_container("id1", "//web");
    assert_eq!(get_container_name(&c), "web");
    assert_eq!(get_container_id(&c), "id1");
    let unnamed = ContainerInfo::default();
    assert_eq!(get_container_name(&unnamed), "");
    assert_eq!(get_container_id(&unnamed), "");
    let inner = export_mock_container("id2", "/a/b");
    assert_eq!(get_container_name(&inner), "a/b");
}

#[test]
fn summary_lists_the_severities_that_occur() {
    let findings = vec![
        export_mock_finding("A", RiskLevel::High, None),
        export_mock_finding("B", RiskLevel::High, None),
        export_mock_finding("C", RiskLevel::Low, None),
    ];
    let counts = count_findings_by_severity(&findings);
    assert_eq!(counts.critical, 2);
    assert_eq!(counts.medium, 0);
    assert_eq!(counts.low, 1);
    assert_eq!(counts.info, 0);
    let parts = build_summary_parts(&counts);
    assert_eq!(parts, vec!["2 critical".to_string(), "1 low".to_string()]);
}

#[test]
fn containers_are_labelled_for_the_report() {
    let c = ContainerInfo {
        name: Some("/web".to_string()),
        image: Some("nginx".to_string()),
        ..Default::default()
    };
    assert_eq!(display_name(&c), "web");
    assert_eq!(image_label(&c), "nginx:latest");
    let tagged = ContainerInfo { image: Some("repo:5000/nginx:1.2".to_string()), ..Default::default() };
    assert_eq!(image_label(&tagged), "repo:5000/nginx:1.2");
    assert_eq!(display_name(&tagged), "<none>");
    assert_eq!(image_label(&ContainerInfo::default()), "<unknown>:latest");
    assert_eq!(status_label(&Some("RUNNING".to_string())), "Running");
    assert_eq!(status_label(&Some("EXITED".to_string())), "Exited");
    assert_eq!(status_label(&Some("PAUSED".to_string())), "Paused");
    assert_eq!(status_label(&Some("CREATED".to_string())), "Created");
    assert_eq!(status_label(&Some("DEAD".to_string())), "DEAD");
    assert_eq!(status_label(&None), "unknown");
}

#[test]
fn table_rows_hold_the_cells_of_a_finding() {
    let finding = export_mock_finding("DF001", RiskLevel::High, Some(12));
    assert_eq!(
        finding_cells(&finding, true),
        vec!["CRITICAL".to_string(), "DF001".to_string(), "12".to_string(), "Test finding for DF001".to_string()]
    );
    assert_eq!(
        finding_cells(&finding, false),
        vec!["CRITICAL".to_string(), "DF001".to_string(), "Test finding for DF001".to_string()]
    );
    let no_line = export_mock_finding("X", RiskLevel::Low, None);
    assert_eq!(finding_cells(&no_line, true)[2], "\u{2014}");
}

#[test]
fn mounts_are_listed_with_warnings() {
    let c = ContainerInfo {
        mounts: Some(vec![
            Mount { source: Some("/data".to_string()), destination: Some("/d".to_string()) },
            Mount { source: Some("/proc/1".to_string()), destination: Some("/p".to_string()) },
            Mount { source: None, destination: None },
        ]),
        ..Default::default()
    };
    assert_eq!(
        analyze_mounts(&c),
        vec![
            "          /data \u{2192} /d".to_string(),
            "      \u{26a0}\u{fe0f}  /proc/1 \u{2192} /p".to_string(),
            "           \u{2192} ".to_string(),
        ]
    );
    assert!(analyze_mounts(&ContainerInfo::default()).is_empty());
}
