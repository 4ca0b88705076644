use valeris::cli::{Cli, CliErrorKind, Commands, OutputFormat, ScanTarget, SeverityLevel};

const VALID_PLUGINS: &[&str] = &[
    "capabilities",
    "mounts",
    "network",
    "exposed_ports",
    "secrets_in_env",
    "privileged_mode",
    "readonly_rootfs",
    "security_options",
    "root_user",
    "pid_mode",
    "ipc_mode",
    "uts_mode",
    "resource_limits",
    "user_namespace",
    "pids_limit",
];

#[test]
fn parses_scan_with_only_and_target() {
    let cli = Cli::parse_from(&[
        "valeris",
        "scan",
        "--target",
        "docker",
        "--only",
        "ports,secrets",
        "--output",
        "report.json",
        "--format",
        "json",
    ]);

    match cli.command {
        Commands::Scan {
            target,
            only,
            exclude,
            format,
            output,
            ..
        } => {
            assert_eq!(target, ScanTarget::Docker);
            let only_vec = only.unwrap();
            assert_eq!(only_vec.len(), 2);
            assert!(only_vec.contains(&"ports".to_string()));
            assert!(only_vec.contains(&"secrets".to_string()));
            assert!(exclude.is_none());
            assert_eq!(format, OutputFormat::Json);
            assert_eq!(output.unwrap(), "report.json");
        }
        _ => panic!("Expected Scan command"),
    }
}

#[test]
fn parses_scan_with_defaults() {
    let cli = Cli::parse_from(&["valeris", "scan"]);
    match cli.command {
        Commands::Scan {
            target,
            only,
            exclude,
            format,
            output,
            ..
        } => {
            assert_eq!(target, ScanTarget::Docker);
            assert!(only.is_none());
            assert!(exclude.is_none());
            assert_eq!(format, OutputFormat::Json);
            assert!(output.is_none());
        }
        _ => panic!("Expected Scan command"),
    }
}

#[test]
fn parses_list_plugins_with_target() {
    let cli = Cli::parse_from(&["valeris", "list-plugins", "--target", "k8s"]);
    match cli.command {
        Commands::ListPlugins { target } => {
            assert_eq!(target.unwrap(), ScanTarget::K8s);
        }
        _ => panic!("Expected ListPlugins command"),
    }
}

#[test]
fn parses_list_plugins_without_target() {
    let cli = Cli::parse_from(&["valeris", "list-plugins"]);
    match cli.command {
        Commands::ListPlugins { target } => {
            assert!(target.is_none());
        }
        _ => panic!("Expected ListPlugins command"),
    }
}

#[test]
fn fails_with_invalid_target() {
    let result = Cli::try_parse_from(&["valeris", "scan", "--target", "invalidvalue"]);
    assert!(result.is_err());
}

#[test]
fn all_plugins_are_cli_valid() {
    for &name in VALID_PLUGINS {
        let cli = Cli::parse_from(&["valeris", "scan", "--only", name]);
        match cli.command {
            Commands::Scan { only: Some(s), .. } => {
                assert_eq!(s.len(), 1);
                assert_eq!(s[0], name);
            }
            _ => panic!("Should parse plugin name"),
        }
    }
}

#[test]
fn all_plugins_are_valid_in_exclude() {
    for &name in VALID_PLUGINS {
        let cli = Cli::parse_from(&["valeris", "scan", "--exclude", name]);
        match cli.command {
            Commands::Scan {
                exclude: Some(s), ..
            } => {
                assert_eq!(s.len(), 1);
                assert_eq!(s[0], name);
            }
            _ => panic!("Should parse plugin name in exclude"),
        }
    }
}
#[test]
fn fails_if_format_without_output() {
    let result = Cli::try_parse_from(&["valeris", "scan", "--format", "json"]);
    assert!(
        result.is_err(),
        "Expected failure when using --format without --output"
    );
}

#[test]
fn parses_output_without_format() {
    let cli = Cli::parse_from(&["valeris", "scan", "--output", "out.json"]);
    match cli.command {
        Commands::Scan { output, format, .. } => {
            assert_eq!(output.unwrap(), "out.json");
            assert_eq!(format, OutputFormat::Json); // default
        }
        _ => panic!("Expected Scan command"),
    }
}

#[test]
fn parses_format_csv_with_output() {
    let cli = Cli::parse_from(&[
        "valeris",
        "scan",
        "--output",
        "report.csv",
        "--format",
        "csv",
    ]);
    match cli.command {
        Commands::Scan { output, format, .. } => {
            assert_eq!(output.unwrap(), "report.csv");
            assert_eq!(format, OutputFormat::Csv);
        }
        _ => panic!("Expected Scan command"),
    }
}

#[test]
fn parses_state_option() {
    let cli = Cli::parse_from(&["valeris", "scan", "--state", "running,exited"]);
    match cli.command {
        Commands::Scan { state: Some(s), .. } => {
            assert_eq!(s.len(), 2);
            assert!(s.contains(&"running".to_string()));
            assert!(s.contains(&"exited".to_string()));
        }
        _ => panic!("Expected Scan command"),
    }
}

#[test]
fn parses_complex_scan_command() {
    let cli = Cli::parse_from(&[
        "valeris",
        "scan",
        "--target",
        "docker",
        "--only",
        "capabilities,network",
        "--output",
        "output.csv",
        "--format",
        "csv",
    ]);
    match cli.command {
        Commands::Scan {
            target,
            only,
            exclude,
            output,
            format,
            ..
        } => {
            assert_eq!(target, ScanTarget::Docker);
            let only_vec = only.unwrap();
            assert_eq!(only_vec.len(), 2);
            assert!(only_vec.contains(&"capabilities".to_string()));
            assert!(only_vec.contains(&"network".to_string()));
            assert!(exclude.is_none());
            assert_eq!(output.unwrap(), "output.csv");
            assert_eq!(format, OutputFormat::Csv);
        }
        _ => panic!("Expected Scan command"),
    }
}

#[test]
fn shows_help_flag_does_not_panic() {
    let result = Cli::try_parse_from(&["valeris", "--help"]);
    assert!(result.is_err()); // clap returns an error that triggers help display
}

#[test]
fn parses_container_filter() {
    let cli = Cli::parse_from(&["valeris", "scan", "--container", "nginx,redis"]);
    match cli.command {
        Commands::Scan { container, .. } => {
            let containers = container.unwrap();
            assert_eq!(containers.len(), 2);
            assert!(containers.contains(&"nginx".to_string()));
            assert!(containers.contains(&"redis".to_string()));
        }
        _ => panic!("Expected Scan command"),
    }
}

#[test]
fn parses_container_filter_short_flag() {
    let cli = Cli::parse_from(&["valeris", "scan", "-c", "web-app"]);
    match cli.command {
        Commands::Scan { container, .. } => {
            let containers = container.unwrap();
            assert_eq!(containers.len(), 1);
            assert_eq!(containers[0], "web-app");
        }
        _ => panic!("Expected Scan command"),
    }
}

#[test]
fn parses_combined_filters() {
    let cli = Cli::parse_from(&[
        "valeris",
        "scan",
        "--state",
        "running",
        "--container",
        "nginx",
        "--only",
        "exposed_ports",
    ]);
    match cli.command {
        Commands::Scan {
            state,
            container,
            only,
            ..
        } => {
            assert!(state.is_some());
            assert!(container.is_some());
            assert!(only.is_some());

            let states = state.unwrap();
            assert_eq!(states.len(), 1);
            assert_eq!(states[0], "running");

            let containers = container.unwrap();
            assert_eq!(containers.len(), 1);
            assert_eq!(containers[0], "nginx");

            let only_detectors = only.unwrap();
            assert_eq!(only_detectors.len(), 1);
            assert_eq!(only_detectors[0], "exposed_ports");
        }
        _ => panic!("Expected Scan command"),
    }
}

#[test]
fn parses_severity_filter() {
    let cli = Cli::parse_from(&["valeris", "scan", "--severity", "high,medium"]);
    match cli.command {
        Commands::Scan { severity, .. } => {
            let severities = severity.unwrap();
            assert_eq!(severities.len(), 2);
        }
        _ => panic!("Expected Scan command"),
    }
}

#[test]
fn parses_min_severity() {
    let cli = Cli::parse_from(&["valeris", "scan", "--min-severity", "medium"]);
    match cli.command {
        Commands::Scan { min_severity, .. } => {
            assert!(min_severity.is_some());
        }
        _ => panic!("Expected Scan command"),
    }
}

#[test]
fn parses_fail_on() {
    let cli = Cli::parse_from(&["valeris", "scan", "--fail-on", "high"]);
    match cli.command {
        Commands::Scan { fail_on, .. } => {
            assert!(fail_on.is_some());
        }
        _ => panic!("Expected Scan command"),
    }
}

#[test]
fn parses_quiet_with_fail_on() {
    let cli = Cli::parse_from(&["valeris", "scan", "--quiet", "--fail-on", "medium"]);
    match cli.command {
        Commands::Scan { quiet, fail_on, .. } => {
            assert!(quiet);
            assert!(fail_on.is_some());
        }
        _ => panic!("Expected Scan command"),
    }
}

#[test]
fn fails_quiet_without_fail_on() {
    let result = Cli::try_parse_from(&["valeris", "scan", "--quiet"]);
    assert!(result.is_err());
}

#[test]
fn fails_severity_and_min_severity_together() {
    let result = Cli::try_parse_from(&[
        "valeris",
        "scan",
        "--severity",
        "high",
        "--min-severity",
        "medium",
    ]);
    assert!(result.is_err());
}

#[test]
fn errors_say_what_is_wrong() {
    let kind = |args: &[&str]| Cli::try_parse_from(args).unwrap_err().kind;
    assert_eq!(kind(&["valeris"]), CliErrorKind::MissingSubcommand);
    assert_eq!(kind(&[]), CliErrorKind::MissingSubcommand);
    assert_eq!(kind(&["valeris", "--help"]), CliErrorKind::HelpRequested);
    assert_eq!(kind(&["valeris", "-h"]), CliErrorKind::HelpRequested);
    assert_eq!(kind(&["valeris", "scan", "--help"]), CliErrorKind::HelpRequested);
    assert_eq!(kind(&["valeris", "--version"]), CliErrorKind::VersionRequested);
    assert_eq!(kind(&["valeris", "-V"]), CliErrorKind::VersionRequested);
    assert_eq!(kind(&["valeris", "explode"]), CliErrorKind::UnknownSubcommand);
    assert_eq!(kind(&["valeris", "--explode"]), CliErrorKind::UnknownArgument);
    assert_eq!(kind(&["valeris", "scan", "--nope"]), CliErrorKind::UnknownArgument);
    assert_eq!(kind(&["valeris", "scan", "positional"]), CliErrorKind::UnknownArgument);
    assert_eq!(kind(&["valeris", "scan", "--path", "x"]), CliErrorKind::UnknownArgument);
    assert_eq!(kind(&["valeris", "config", "--quiet"]), CliErrorKind::UnknownArgument);
    assert_eq!(kind(&["valeris", "scan", "--only"]), CliErrorKind::MissingValue);
    assert_eq!(kind(&["valeris", "scan", "--only", "--quiet"]), CliErrorKind::MissingValue);
    assert_eq!(kind(&["valeris", "scan", "--quiet=yes"]), CliErrorKind::UnexpectedValue);
    assert_eq!(kind(&["valeris", "scan", "--target", "invalidvalue"]), CliErrorKind::InvalidValue);
    assert_eq!(kind(&["valeris", "scan", "--severity", "high,critical"]), CliErrorKind::InvalidValue);
    assert_eq!(kind(&["valeris", "scan", "--fail-on", "High"]), CliErrorKind::InvalidValue);
    assert_eq!(
        kind(&["valeris", "scan", "--output", "a", "--output", "b"]),
        CliErrorKind::UsedTwice
    );
    assert_eq!(
        kind(&["valeris", "scan", "--only", "a", "--exclude", "b"]),
        CliErrorKind::Conflict
    );
    assert_eq!(
        kind(&["valeris", "scan", "--severity", "high", "--min-severity", "medium"]),
        CliErrorKind::Conflict
    );
    assert_eq!(kind(&["valeris", "scan", "--quiet"]), CliErrorKind::MissingCompanion);
    assert_eq!(kind(&["valeris", "scan", "--format", "json"]), CliErrorKind::MissingCompanion);
    assert_eq!(kind(&["valeris", "docker-file", "--rules", "r"]), CliErrorKind::MissingRequired);
    assert_eq!(kind(&["valeris", "docker-file", "--path", "p"]), CliErrorKind::MissingRequired);
}

#[test]
fn errors_name_the_argument() {
    let err = Cli::try_parse_from(&["valeris", "scan", "--nope"]).unwrap_err();
    assert_eq!(err.argument, "--nope");
    let err = Cli::try_parse_from(&["valeris", "scan", "-t"]).unwrap_err();
    assert_eq!(err.argument, "--target");
    let err = Cli::try_parse_from(&["valeris", "scan", "--only", "a", "--exclude", "b"]).unwrap_err();
    assert_eq!(err.argument, "--exclude");
    let err = Cli::try_parse_from(&["valeris", "docker-file"]).unwrap_err();
    assert_eq!(err.argument, "--path");
    // an option given twice is reported before a value that is not accepted
    let err = Cli::try_parse_from(&["valeris", "scan", "--target", "x", "--target", "y"]).unwrap_err();
    assert_eq!(err.kind, CliErrorKind::UsedTwice);
    // the first error from the left is reported
    let err = Cli::try_parse_from(&["valeris", "scan", "--bad", "--only"]).unwrap_err();
    assert_eq!(err.kind, CliErrorKind::UnknownArgument);
}

#[test]
fn values_can_follow_an_equals_sign() {
    let cli = Cli::parse_from(&["valeris", "s", "--only=a,b", "--only", "c", "--target=both"]);
    match cli.command {
        Commands::Scan { only, target, .. } => {
            assert_eq!(only.unwrap(), vec!["a".to_string(), "b".to_string(), "c".to_string()]);
            assert_eq!(target, ScanTarget::Both);
        }
        _ => panic!("Expected Scan command"),
    }
}

#[test]
fn scan_reads_every_option() {
    let cli = Cli::parse_from(&[
        "valeris", "scan", "-t", "k8s", "--exclude", "x,,y", "--state", "running", "-c", "web",
        "--min-severity", "low", "--fail-on", "high", "--quiet", "-f", "table", "-o", "out.txt",
    ]);
    match cli.command {
        Commands::Scan {
            target, only, exclude, state, container, severity, min_severity, fail_on, quiet, format, output,
        } => {
            assert_eq!(target, ScanTarget::K8s);
            assert!(only.is_none());
            assert_eq!(exclude.unwrap(), vec!["x".to_string(), "".to_string(), "y".to_string()]);
            assert_eq!(state.unwrap(), vec!["running".to_string()]);
            assert_eq!(container.unwrap(), vec!["web".to_string()]);
            assert!(severity.is_none());
            assert_eq!(min_severity, Some(SeverityLevel::Low));
            assert_eq!(fail_on, Some(SeverityLevel::High));
            assert!(quiet);
            assert_eq!(format, OutputFormat::Table);
            assert_eq!(output.unwrap(), "out.txt");
        }
        _ => panic!("Expected Scan command"),
    }
    let cli = Cli::parse_from(&["valeris", "scan", "--severity", "high,informative", "--severity", "low"]);
    match cli.command {
        Commands::Scan { severity, quiet, .. } => {
            assert_eq!(
                severity.unwrap(),
                vec![SeverityLevel::High, SeverityLevel::Informative, SeverityLevel::Low]
            );
            assert!(!quiet);
        }
        _ => panic!("Expected Scan command"),
    }
}

#[test]
fn docker_file_reads_its_options() {
    let cli = Cli::parse_from(&["valeris", "docker-file", "--path", "./Dockerfile", "-r", "./rules"]);
    match cli.command {
        Commands::DockerFile { path, rules, format, output, only, quiet, fail_on, .. } => {
            assert_eq!(path, "./Dockerfile");
            assert_eq!(rules, "./rules");
            assert_eq!(format, OutputFormat::Table);
            assert!(output.is_none());
            assert!(only.is_none());
            assert!(!quiet);
            assert!(fail_on.is_none());
        }
        _ => panic!("Expected DockerFile command"),
    }
    // for a Dockerfile a format needs no output file
    let cli = Cli::parse_from(&[
        "valeris", "df", "-p", "D", "--rules=R", "--format", "json", "--only", "DF001",
        "--fail-on", "medium", "--quiet",
    ]);
    match cli.command {
        Commands::DockerFile { format, only, fail_on, quiet, .. } => {
            assert_eq!(format, OutputFormat::Json);
            assert_eq!(only.unwrap(), vec!["DF001".to_string()]);
            assert_eq!(fail_on, Some(SeverityLevel::Medium));
            assert!(quiet);
        }
        _ => panic!("Expected DockerFile command"),
    }
}

#[test]
fn commands_have_short_names() {
    assert!(matches!(Cli::parse_from(&["valeris", "cfg"]).command, Commands::Config {}));
    assert!(matches!(Cli::parse_from(&["valeris", "config"]).command, Commands::Config {}));
    assert!(matches!(
        Cli::parse_from(&["valeris", "ls", "-t", "both"]).command,
        Commands::ListPlugins { target: Some(ScanTarget::Both) }
    ));
    // a single dash is a value, not an option
    match Cli::parse_from(&["valeris", "scan", "--output", "-"]).command {
        Commands::Scan { output, .. } => assert_eq!(output.unwrap(), "-"),
        _ => panic!("Expected Scan command"),
    }
}
