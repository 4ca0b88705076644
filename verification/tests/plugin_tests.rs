use valeris::docker::model::{
    ContainerInfo, Finding, Mount, PortBinding, PortMapping, RestartPolicyName, RiskLevel, Ulimit,
};
use valeris::docker::scanner::{
    collect_plugin_ids, run_plugins_on_container, scan_with_plugins_on_containers,
};
use valeris::plugins::common::{
    get_common_plugins, is_sensitive_key, RestartPolicyPlugin, SecretsPlugin,
};
use valeris::plugins::docker::{
    get_docker_plugins, risk_of_capability, CapabilitiesPlugin, IpcModePlugin, MountPlugin, NetworkPlugin,
    PidModePlugin, PidsLimitPlugin, PortPlugin, PrivilegedPlugin, ReadOnlyRootFSPlugin,
    ResourceLimitsPlugin, SecurityOptPlugin, UserNamespacePlugin, UserPlugin, UtsModePlugin,
};
use valeris::plugins::{load_plugins_for_target, Plugin, PluginTarget, ScanInput, ValerisPlugin};
use valeris::selection::IdKind;

fn run_on(plugin: &dyn ValerisPlugin, container: ContainerInfo) -> Vec<Finding> {
    plugin.run(&ScanInput::DockerContainer(container))
}

fn with_user(user: Option<&str>) -> ContainerInfo {
    ContainerInfo { user: user.map(|u| u.to_string()), ..Default::default() }
}

fn make_container_with_policy(policy: Option<RestartPolicyName>) -> ContainerInfo {
    ContainerInfo { restart_policy: policy, ..Default::default() }
}

fn make_container_with_env(envs: Vec<&str>) -> ContainerInfo {
    ContainerInfo {
        env: Some(envs.into_iter().map(|s| s.to_string()).collect()),
        ..Default::default()
    }
}

fn with_ports(ports: Vec<PortMapping>) -> ContainerInfo {
    ContainerInfo { ports: Some(ports), ..Default::default() }
}

fn binding(ip: &str, port: &str) -> PortBinding {
    PortBinding { host_ip: Some(ip.to_string()), host_port: Some(port.to_string()) }
}

fn mock_container_with_exposed_port() -> ContainerInfo {
    with_ports(vec![PortMapping {
        port: "80/tcp".to_string(),
        bindings: Some(vec![binding("0.0.0.0", "8080")]),
    }])
}

fn mock_container_local_binding() -> ContainerInfo {
    with_ports(vec![PortMapping {
        port: "80/tcp".to_string(),
        bindings: Some(vec![binding("127.0.0.1", "8080")]),
    }])
}

fn mock_container_none_binding() -> ContainerInfo {
    with_ports(vec![PortMapping { port: "80/tcp".to_string(), bindings: None }])
}

fn mock_container_duplicate_bindings() -> ContainerInfo {
    with_ports(vec![PortMapping {
        port: "80/tcp".to_string(),
        bindings: Some(vec![binding("0.0.0.0", "8080"), binding("127.0.0.1", "8080")]),
    }])
}

#[test]
fn detects_always_restart_policy() {
    let container = make_container_with_policy(Some(RestartPolicyName::Always));
    let plugin = RestartPolicyPlugin;
    let findings = plugin.run(&ScanInput::DockerContainer(container));

    assert_eq!(findings.len(), 1);
    assert_eq!(findings[0].risk, RiskLevel::Low);
    assert!(findings[0].description.contains("always"));
}

#[test]
fn detects_on_failure_restart_policy() {
    let container = make_container_with_policy(Some(RestartPolicyName::OnFailure));
    let plugin = RestartPolicyPlugin;
    let findings = plugin.run(&ScanInput::DockerContainer(container));

    assert_eq!(findings.len(), 1);
    assert_eq!(findings[0].risk, RiskLevel::Informative);
    assert!(findings[0].description.contains("on-failure"));
}

#[test]
fn detects_unless_stopped_restart_policy() {
    let container = make_container_with_policy(Some(RestartPolicyName::UnlessStopped));
    let plugin = RestartPolicyPlugin;
    let findings = plugin.run(&ScanInput::DockerContainer(container));

    assert_eq!(findings.len(), 1);
    assert_eq!(findings[0].risk, RiskLevel::Informative);
    assert!(findings[0].description.contains("unless-stopped"));
}

#[test]
fn detects_no_restart_policy() {
    let container = make_container_with_policy(Some(RestartPolicyName::No));
    let plugin = RestartPolicyPlugin;
    let findings = plugin.run(&ScanInput::DockerContainer(container));

    assert_eq!(findings.len(), 1);
    assert_eq!(findings[0].risk, RiskLevel::Informative);
    assert!(findings[0].description.contains("no"));
}

#[test]
fn detects_missing_restart_policy() {
    let container = make_container_with_policy(None);
    let plugin = RestartPolicyPlugin;
    let findings = plugin.run(&ScanInput::DockerContainer(container));

    assert_eq!(findings.len(), 1);
    assert_eq!(findings[0].risk, RiskLevel::Medium);
    assert!(findings[0].description.contains("No restart policy defined"));
}

#[test]
fn detects_sensitive_env_vars() {
    let container =
        make_container_with_env(vec!["PASSWORD=supersecret", "DB_PASS=123456", "USER=admin"]);

    let plugin = SecretsPlugin;
    let findings = plugin.run(&ScanInput::DockerContainer(container));

    assert_eq!(findings.len(), 2);
    assert!(findings
        .iter()
        .any(|f| f.description.contains("PASSWORD = supersecret")));
    assert!(findings
        .iter()
        .any(|f| f.description.contains("DB_PASS = 123456")));
    assert!(findings.iter().all(|f| f.risk == RiskLevel::High));
}

#[test]
fn ignores_non_sensitive_env_vars() {
    let container =
        make_container_with_env(vec!["NODE_ENV=production", "USER=admin", "VERSION=1.0.0"]);

    let plugin = SecretsPlugin;
    let findings = plugin.run(&ScanInput::DockerContainer(container));

    assert!(findings.is_empty());
}

#[test]
fn handles_missing_env_list() {
    let container = ContainerInfo { env: None, ..Default::default() };

    let plugin = SecretsPlugin;
    let findings = plugin.run(&ScanInput::DockerContainer(container));

    assert!(findings.is_empty());
}

#[test]
fn ignores_malformed_env_vars() {
    let container = make_container_with_env(vec!["INVALID_ENV_FORMAT", "ALSO_BAD"]);

    let plugin = SecretsPlugin;
    let findings = plugin.run(&ScanInput::DockerContainer(container));

    assert!(findings.is_empty());
}

#[test]
fn detects_sensitive_env_vars_lowercase_key() {
    let container = make_container_with_env(vec!["password=abc"]);

    let plugin = SecretsPlugin;
    let findings = plugin.run(&ScanInput::DockerContainer(container));

    assert_eq!(findings.len(), 1);
    assert!(findings
        .iter()
        .any(|f| f.description.contains("password = abc")));
    assert!(findings.iter().all(|f| f.risk == RiskLevel::High));
}

#[test]
fn detects_dangerous_capabilities() {
    let container = ContainerInfo {
        cap_add: Some(vec!["SYS_ADMIN".to_string(), "CHOWN".to_string(), "FOO".to_string()]),
        ..Default::default()
    };
    let input = ScanInput::DockerContainer(container);

    let plugin = CapabilitiesPlugin;
    let findings = plugin.run(&input);

    assert_eq!(findings.len(), 3);
    assert!(findings.iter().any(|f| f.risk == RiskLevel::High && f.description.contains("SYS_ADMIN")));
    assert!(findings.iter().any(|f| f.risk == RiskLevel::Medium && f.description.contains("CHOWN")));
    assert!(findings.iter().any(|f| f.risk == RiskLevel::Low && f.description.contains("FOO")));
}

#[test]
fn detects_host_ipc_mode() {
    let container = ContainerInfo { ipc_mode: Some("host".to_string()), ..Default::default() };
    let findings = IpcModePlugin.run(&ScanInput::DockerContainer(container));
    assert_eq!(findings.len(), 1);
    assert_eq!(findings[0].risk, RiskLevel::Medium);
    assert!(findings[0].description.contains("host IPC mode"));
}

#[test]
fn ignores_non_host_ipc_mode() {
    let container = ContainerInfo { ipc_mode: Some("private".to_string()), ..Default::default() };
    let findings = IpcModePlugin.run(&ScanInput::DockerContainer(container));
    assert!(findings.is_empty());
}

#[test]
fn detects_sensitive_mounts() {
    let mounts = vec![
        Mount {
            source: Some("/var/run/docker.sock".to_string()),
            destination: Some("/sock".to_string()),
        },
        Mount {
            source: Some("/data".to_string()),
            destination: Some("/app/data".to_string()),
        },
    ];

    let container = ContainerInfo { mounts: Some(mounts), ..Default::default() };

    let input = ScanInput::DockerContainer(container);
    let plugin = MountPlugin;
    let findings = plugin.run(&input);

    assert_eq!(findings.len(), 2);
    assert!(findings
        .iter()
        .any(|f| f.risk == RiskLevel::High && f.description.contains("/var/run/docker.sock")));
    assert!(findings
        .iter()
        .any(|f| f.risk == RiskLevel::Informative && f.description.contains("/data")));
}

#[test]
fn detects_host_network_mode() {
    let container = ContainerInfo { network_mode: Some("host".to_string()), ..Default::default() };
    let findings = NetworkPlugin.run(&ScanInput::DockerContainer(container));
    assert_eq!(findings.len(), 1);
    assert_eq!(findings[0].risk, RiskLevel::High);
    assert!(findings[0].description.contains("host network mode"));
}

#[test]
fn ignores_non_host_network_mode() {
    let container = ContainerInfo { network_mode: Some("bridge".to_string()), ..Default::default() };
    let findings = NetworkPlugin.run(&ScanInput::DockerContainer(container));
    assert!(findings.is_empty());
}

#[test]
fn detects_host_pid_mode() {
    let container = ContainerInfo { pid_mode: Some("host".to_string()), ..Default::default() };
    let findings = PidModePlugin.run(&ScanInput::DockerContainer(container));
    assert_eq!(findings.len(), 1);
    assert_eq!(findings[0].risk, RiskLevel::Informative);
    assert!(findings[0].description.contains("host PID mode"));
}

#[test]
fn ignores_non_host_pid_mode() {
    let container = ContainerInfo { pid_mode: Some("private".to_string()), ..Default::default() };
    let findings = PidModePlugin.run(&ScanInput::DockerContainer(container));
    assert!(findings.is_empty());
}

#[test]
fn pids_limit_detects_missing_limits() {
    let container = ContainerInfo::default();

    let plugin = PidsLimitPlugin;
    let input = ScanInput::DockerContainer(container);
    let findings = plugin.run(&input);

    assert_eq!(findings.len(), 1);
    assert_eq!(findings[0].risk, RiskLevel::Medium);
}

#[test]
fn ignores_configured_limits() {
    let ulimits = vec![Ulimit { name: Some("nproc".to_string()), soft: Some(100), hard: Some(200) }];

    let container = ContainerInfo {
        pids_limit: Some(100),
        ulimits: Some(ulimits),
        ..Default::default()
    };

    let plugin = PidsLimitPlugin;
    let input = ScanInput::DockerContainer(container);
    let findings = plugin.run(&input);

    assert!(findings.is_empty());
}

#[test]
fn detects_exposed_ports() {
    let plugin = PortPlugin;
    let input = ScanInput::DockerContainer(mock_container_with_exposed_port());
    let findings = plugin.run(&input);

    assert!(!findings.is_empty());
    assert!(findings.iter().any(|f| f.risk == RiskLevel::High));
}

#[test]
fn local_bindings_are_medium_risk() {
    let plugin = PortPlugin;
    let input = ScanInput::DockerContainer(mock_container_local_binding());
    let findings = plugin.run(&input);

    assert_eq!(findings.len(), 1);
    assert_eq!(findings[0].risk, RiskLevel::Medium);
}

#[test]
fn informative_for_none_bindings() {
    let plugin = PortPlugin;
    let input = ScanInput::DockerContainer(mock_container_none_binding());
    let findings = plugin.run(&input);

    assert_eq!(findings.len(), 1);
    assert_eq!(findings[0].risk, RiskLevel::Informative);
}

#[test]
fn avoids_duplicate_findings() {
    let plugin = PortPlugin;
    let input = ScanInput::DockerContainer(mock_container_duplicate_bindings());
    let findings = plugin.run(&input);

    assert_eq!(findings.len(), 1);
    assert_eq!(findings[0].risk, RiskLevel::High);
}

#[test]
fn detects_privileged_mode() {
    let container = ContainerInfo { privileged: Some(true), ..Default::default() };
    let findings = PrivilegedPlugin.run(&ScanInput::DockerContainer(container));
    assert_eq!(findings.len(), 1);
    assert_eq!(findings[0].risk, RiskLevel::High);
    assert!(findings[0].description.contains("privileged mode"));
}

#[test]
fn ignores_non_privileged_mode() {
    let container = ContainerInfo { privileged: Some(false), ..Default::default() };
    let findings = PrivilegedPlugin.run(&ScanInput::DockerContainer(container));
    assert!(findings.is_empty());
}

#[test]
fn ignores_missing_privileged_field() {
    let container = ContainerInfo { privileged: None, ..Default::default() };
    let findings = PrivilegedPlugin.run(&ScanInput::DockerContainer(container));
    assert!(findings.is_empty());
}

#[test]
fn detects_readonly_rootfs_enabled() {
    let container = ContainerInfo { readonly_rootfs: Some(true), ..Default::default() };
    let findings = ReadOnlyRootFSPlugin.run(&ScanInput::DockerContainer(container));
    assert_eq!(findings.len(), 1);
    assert_eq!(findings[0].risk, RiskLevel::Informative);
    assert!(findings[0].description.contains("read-only mode"));
}

#[test]
fn ignores_readonly_rootfs_disabled() {
    let container = ContainerInfo { readonly_rootfs: Some(false), ..Default::default() };
    let findings = ReadOnlyRootFSPlugin.run(&ScanInput::DockerContainer(container));
    assert!(findings.is_empty());
}

#[test]
fn ignores_missing_readonly_rootfs_field() {
    let container = ContainerInfo { readonly_rootfs: None, ..Default::default() };
    let findings = ReadOnlyRootFSPlugin.run(&ScanInput::DockerContainer(container));
    assert!(findings.is_empty());
}

#[test]
fn resource_limits_detects_missing_limits() {
    let container = ContainerInfo {
        memory: None,
        nano_cpus: None,
        cpu_shares: None,
        ..Default::default()
    };

    let plugin = ResourceLimitsPlugin;
    let input = ScanInput::DockerContainer(container);
    let findings = plugin.run(&input);

    assert_eq!(findings.len(), 2);
    assert!(findings.iter().all(|f| f.risk == RiskLevel::Medium));
}

#[test]
fn ignores_when_limits_set() {
    let container = ContainerInfo {
        memory: Some(64 * 1024 * 1024),
        nano_cpus: Some(1_000_000_000),
        cpu_shares: Some(1024),
        ..Default::default()
    };

    let plugin = ResourceLimitsPlugin;
    let input = ScanInput::DockerContainer(container);
    let findings = plugin.run(&input);

    assert!(findings.is_empty());
}

#[test]
fn detects_unconfined_security_options() {
    let container = ContainerInfo {
        security_opt: Some(vec!["apparmor=unconfined".to_string(), "seccomp=default".to_string()]),
        ..Default::default()
    };

    let plugin = SecurityOptPlugin;
    let input = ScanInput::DockerContainer(container);
    let findings = plugin.run(&input);

    assert_eq!(findings.len(), 2);
    assert!(findings
        .iter()
        .any(|f| f.risk == RiskLevel::High && f.description.contains("unconfined")));
    assert!(findings
        .iter()
        .any(|f| f.risk == RiskLevel::Informative && f.description.contains("seccomp")));
}

#[test]
fn ignores_missing_security_options() {
    let container = ContainerInfo { security_opt: None, ..Default::default() };
    let findings = SecurityOptPlugin.run(&ScanInput::DockerContainer(container));
    assert!(findings.is_empty());
}

#[test]
fn handles_empty_security_opt_vector() {
    let container = ContainerInfo { security_opt: Some(vec![]), ..Default::default() };
    let findings = SecurityOptPlugin.run(&ScanInput::DockerContainer(container));
    assert!(findings.is_empty());
}

#[test]
fn detects_root_user_by_default() {
    let plugin = UserPlugin;
    let input = ScanInput::DockerContainer(with_user(None));
    let findings = plugin.run(&input);

    assert_eq!(findings.len(), 1);
    assert_eq!(findings[0].risk, RiskLevel::High);
    assert!(findings[0].description.contains("running as root"));
}

#[test]
fn detects_explicit_root_user() {
    let findings = UserPlugin.run(&ScanInput::DockerContainer(with_user(Some("root"))));
    assert_eq!(findings.len(), 1);
}

#[test]
fn detects_root_by_uid_zero() {
    let findings = UserPlugin.run(&ScanInput::DockerContainer(with_user(Some("0"))));
    assert_eq!(findings.len(), 1);
}

#[test]
fn ignores_non_root_user() {
    let findings = UserPlugin.run(&ScanInput::DockerContainer(with_user(Some("appuser"))));
    assert!(findings.is_empty());
}

#[test]
fn ignores_empty_user_string() {
    let findings = UserPlugin.run(&ScanInput::DockerContainer(with_user(Some("   "))));
    assert_eq!(findings.len(), 1);
}

#[test]
fn detects_absent_userns_mode() {
    let container = ContainerInfo { userns_mode: None, ..Default::default() };
    let findings = UserNamespacePlugin.run(&ScanInput::DockerContainer(container));
    assert_eq!(findings.len(), 1);
    assert_eq!(findings[0].risk, RiskLevel::High);
}

#[test]
fn detects_host_userns_mode() {
    let container = ContainerInfo { userns_mode: Some("host".to_string()), ..Default::default() };
    let findings = UserNamespacePlugin.run(&ScanInput::DockerContainer(container));
    assert_eq!(findings.len(), 1);
    assert_eq!(findings[0].risk, RiskLevel::High);
}

#[test]
fn ignores_non_host_userns_mode() {
    let container = ContainerInfo { userns_mode: Some("private".to_string()), ..Default::default() };
    let findings = UserNamespacePlugin.run(&ScanInput::DockerContainer(container));
    assert!(findings.is_empty());
}

#[test]
fn detects_host_uts_mode() {
    let container = ContainerInfo { uts_mode: Some("host".to_string()), ..Default::default() };
    let findings = UtsModePlugin.run(&ScanInput::DockerContainer(container));
    assert_eq!(findings.len(), 1);
    assert_eq!(findings[0].risk, RiskLevel::Medium);
    assert!(findings[0].description.contains("host UTS mode"));
}

#[test]
fn ignores_non_host_uts_mode() {
    let container = ContainerInfo { uts_mode: Some("private".to_string()), ..Default::default() };
    let findings = UtsModePlugin.run(&ScanInput::DockerContainer(container));
    assert!(findings.is_empty());
}

#[test]
fn loads_docker_plugins() {
    let plugins = load_plugins_for_target(PluginTarget::Docker);
    assert!(!plugins.is_empty());
    assert!(plugins
        .iter()
        .all(|p| matches!(p.target(), PluginTarget::Docker | PluginTarget::Both)));
}

#[test]
fn loads_kubernetes_plugins() {
    let plugins = load_plugins_for_target(PluginTarget::Kubernetes);
    assert!(!plugins.is_empty());
    assert!(plugins
        .iter()
        .all(|p| matches!(p.target(), PluginTarget::Kubernetes | PluginTarget::Both)));
}

#[test]
fn loads_all_plugins_for_both() {
    let plugins = load_plugins_for_target(PluginTarget::Both);
    assert!(!plugins.is_empty());
    // Expect at least one Docker-specific and one cross-target plugin
    assert!(plugins.iter().any(|p| p.target() == PluginTarget::Docker));
    assert!(plugins.iter().any(|p| p.target() == PluginTarget::Both));
}

#[test]
fn test_collect_plugin_ids_extracts_lowercase_ids() {
    let plugins = vec![Plugin::Ports, Plugin::Capabilities];

    let ids = collect_plugin_ids(&plugins);
    assert!(ids.contains("exposed_ports"));
    assert!(ids.contains("capabilities"));
    assert_eq!(ids.len(), 2);
}

#[test]
fn plugin_lists_are_in_order() {
    let listed = get_docker_plugins();
    let docker: Vec<&str> = listed.iter().map(|p| p.id()).collect();
    assert_eq!(
        docker,
        vec![
            "root_user", "network", "mounts", "exposed_ports", "capabilities", "pid_mode",
            "ipc_mode", "uts_mode", "privileged_mode", "readonly_rootfs", "security_options",
            "resource_limits", "user_namespace", "pids_limit",
        ]
    );
    assert_eq!(get_common_plugins(), vec![Plugin::RestartPolicy, Plugin::Secrets]);
    assert_eq!(load_plugins_for_target(PluginTarget::Both).len(), 16);
    assert_eq!(load_plugins_for_target(PluginTarget::Docker).len(), 16);
    assert_eq!(
        load_plugins_for_target(PluginTarget::Kubernetes),
        vec![Plugin::RestartPolicy, Plugin::Secrets]
    );
    assert_eq!(Plugin::Secrets.name(), "Sensitive Environment Variables Checker");
    assert!(Plugin::Mounts.description().contains("/var/run/docker.sock"));
    assert_eq!(run_on(&NetworkPlugin, ContainerInfo::default()).len(), 0);
}

#[test]
fn check_findings_are_exact() {
    let container = ContainerInfo {
        mounts: Some(vec![
            Mount { source: Some("/etc/passwd".to_string()), destination: None },
            Mount { source: None, destination: Some("/x".to_string()) },
        ]),
        cap_add: Some(vec!["sys_ptrace".to_string()]),
        security_opt: Some(vec!["no-new-privileges".to_string()]),
        env: Some(vec!["Api_Key=a=b".to_string(), "=x".to_string()]),
        restart_policy: Some(RestartPolicyName::Empty),
        ..Default::default()
    };
    let input = ScanInput::DockerContainer(container);
    let plain = |kind: &str, description: &str, risk: RiskLevel| Finding {
        kind: kind.to_string(),
        description: description.to_string(),
        risk,
        line: None,
    };
    assert_eq!(
        MountPlugin.run(&input),
        vec![
            plain("Mount", "/etc/passwd \u{2192} ", RiskLevel::High),
            plain("Mount", " \u{2192} /x", RiskLevel::Informative),
        ]
    );
    assert_eq!(
        CapabilitiesPlugin.run(&input),
        vec![plain("Capabilities", "Capability 'sys_ptrace' added", RiskLevel::High)]
    );
    assert_eq!(
        SecurityOptPlugin.run(&input),
        vec![plain("Security Option", "Security option: no-new-privileges", RiskLevel::Informative)]
    );
    assert_eq!(
        SecretsPlugin.run(&input),
        vec![plain("Environment", "Sensitive variable detected: Api_Key = a=b", RiskLevel::High)]
    );
    assert_eq!(
        RestartPolicyPlugin.run(&input),
        vec![plain("RestartPolicy", "Unusual restart policy: 'EMPTY'", RiskLevel::Medium)]
    );
    assert_eq!(
        ResourceLimitsPlugin.run(&input),
        vec![
            plain("ResourceLimits", "Memory limit not set", RiskLevel::Medium),
            plain("ResourceLimits", "CPU limit not set", RiskLevel::Medium),
        ]
    );
    assert_eq!(
        PidsLimitPlugin.run(&input),
        vec![plain("PIDs Limit", "PIDs limit not set", RiskLevel::Medium)]
    );
}

#[test]
fn port_findings_are_exact() {
    let container = with_ports(vec![
        PortMapping {
            port: "80/tcp".to_string(),
            bindings: Some(vec![binding("::", "8080"), binding("10.0.0.1", "8081")]),
        },
        PortMapping { port: "53/udp".to_string(), bindings: None },
        PortMapping {
            port: "80/tcp".to_string(),
            bindings: Some(vec![
                binding("0.0.0.0", "8080"),
                PortBinding { host_ip: None, host_port: None },
            ]),
        },
        PortMapping { port: "90/tcp".to_string(), bindings: Some(vec![]) },
    ]);
    let findings = PortPlugin.run(&ScanInput::DockerContainer(container));
    let descriptions: Vec<&str> = findings.iter().map(|f| f.description.as_str()).collect();
    assert_eq!(
        descriptions,
        vec![
            "Exposed port: 80/tcp \u{2192} :::8080",
            "Exposed port: 80/tcp \u{2192} 10.0.0.1:8081",
            "Port 53/udp exposed internally",
            "Exposed port: 80/tcp \u{2192} :",
        ]
    );
    let risks: Vec<RiskLevel> = findings.iter().map(|f| f.risk).collect();
    assert_eq!(
        risks,
        vec![RiskLevel::High, RiskLevel::Medium, RiskLevel::Informative, RiskLevel::Medium]
    );
    assert!(findings.iter().all(|f| f.kind == "Port" && f.line.is_none()));
}

#[test]
fn limits_need_a_positive_value() {
    let zero = ContainerInfo {
        memory: Some(0),
        nano_cpus: Some(0),
        cpu_shares: Some(-1),
        pids_limit: Some(0),
        ulimits: Some(vec![
            Ulimit { name: Some("nofile".to_string()), soft: Some(10), hard: Some(10) },
            Ulimit { name: Some("pids".to_string()), soft: Some(0), hard: None },
        ]),
        ..Default::default()
    };
    assert_eq!(run_on(&ResourceLimitsPlugin, zero).len(), 2);
    let shares_only = ContainerInfo { memory: Some(1), cpu_shares: Some(2), ..Default::default() };
    assert!(run_on(&ResourceLimitsPlugin, shares_only).is_empty());
    let no_pids = ContainerInfo {
        pids_limit: Some(0),
        ulimits: Some(vec![Ulimit { name: Some("pids".to_string()), soft: Some(0), hard: None }]),
        ..Default::default()
    };
    assert_eq!(run_on(&PidsLimitPlugin, no_pids).len(), 1);
    let by_ulimit = ContainerInfo {
        ulimits: Some(vec![Ulimit { name: Some("pids".to_string()), soft: None, hard: Some(5) }]),
        ..Default::default()
    };
    assert!(run_on(&PidsLimitPlugin, by_ulimit).is_empty());
}

#[test]
fn sensitive_keys_are_found_inside_names() {
    assert!(is_sensitive_key("MY_DB_USERNAME"));
    assert!(is_sensitive_key("GITHUB_TOKEN"));
    assert!(is_sensitive_key("GCP_KEY"));
    assert!(!is_sensitive_key("PATH"));
    assert!(!is_sensitive_key("token"));
    assert!(!is_sensitive_key(""));
}

#[test]
fn selected_checks_run_in_order() {
    let container = ContainerInfo {
        network_mode: Some("host".to_string()),
        privileged: Some(true),
        userns_mode: Some("private".to_string()),
        user: Some("app".to_string()),
        memory: Some(1),
        nano_cpus: Some(1),
        pids_limit: Some(1),
        restart_policy: Some(RestartPolicyName::Always),
        ..Default::default()
    };
    let input = ScanInput::DockerContainer(container);
    let plugins = load_plugins_for_target(PluginTarget::Docker);
    let kinds = |findings: Vec<Finding>| -> Vec<String> { findings.into_iter().map(|f| f.kind).collect() };

    let all = run_plugins_on_container(&input, &plugins, &None, &None);
    assert_eq!(
        kinds(all),
        vec!["Network".to_string(), "Privileged".to_string(), "RestartPolicy".to_string()]
    );

    let mut only = valeris::idset::IdSet::new();
    only.insert("privileged_mode".to_string());
    only.insert("network".to_string());
    let picked = run_plugins_on_container(&input, &plugins, &Some(only), &None);
    assert_eq!(kinds(picked), vec!["Network".to_string(), "Privileged".to_string()]);

    let mut exclude = valeris::idset::IdSet::new();
    exclude.insert("network".to_string());
    let rest = run_plugins_on_container(&input, &plugins, &None, &Some(exclude));
    assert_eq!(kinds(rest), vec!["Privileged".to_string(), "RestartPolicy".to_string()]);
}

#[test]
fn scan_with_plugins_checks_the_ids() {
    let make = || {
        vec![
            ContainerInfo {
                id: Some("a".to_string()),
                privileged: Some(true),
                ..Default::default()
            },
            ContainerInfo { id: Some("b".to_string()), ..Default::default() },
        ]
    };
    let results = scan_with_plugins_on_containers(
        make(),
        PluginTarget::Docker,
        Some(" Privileged_Mode ,network".to_string()),
        None,
    )
    .unwrap();
    assert_eq!(results.len(), 2);
    assert_eq!(results[0].container.id, Some("a".to_string()));
    assert_eq!(results[0].findings.len(), 1);
    assert_eq!(results[0].findings[0].kind, "Privileged");
    assert_eq!(results[1].container.id, Some("b".to_string()));
    assert!(results[1].findings.is_empty());

    let err = scan_with_plugins_on_containers(
        make(),
        PluginTarget::Docker,
        Some("network,bogus,nope".to_string()),
        None,
    )
    .unwrap_err();
    assert_eq!(err.what, IdKind::Plugin);
    assert_eq!(err.message(), "Unknown plugins in --only: bogus, nope");

    let err = scan_with_plugins_on_containers(
        make(),
        PluginTarget::Docker,
        None,
        Some("bogus".to_string()),
    )
    .unwrap_err();
    assert_eq!(err.message(), "Unknown plugin in --exclude: bogus");

    // a check for Docker alone is no check for Kubernetes
    assert!(scan_with_plugins_on_containers(
        make(),
        PluginTarget::Kubernetes,
        Some("network".to_string()),
        None
    )
    .is_err());
}

#[test]
fn capability_risk_goes_by_the_exact_name() {
    for name in ["SYS_ADMIN", "ALL", "NET_ADMIN", "SYS_MODULE", "SYS_PTRACE"] {
        assert_eq!(risk_of_capability(name), RiskLevel::High, "{}", name);
    }
    for name in ["SYS_TIME", "MKNOD", "CHOWN", "FOWNER", "DAC_OVERRIDE", "AUDIT_WRITE", "KILL"] {
        assert_eq!(risk_of_capability(name), RiskLevel::Medium, "{}", name);
    }
    for name in ["NET_BIND_SERVICE", "sys_admin", "SYS_ADMIN ", "", "SETUID"] {
        assert_eq!(risk_of_capability(name), RiskLevel::Low, "{}", name);
    }
}
