//! Checks that read the settings of an inspected container.
//!
//! Each check is a type of its own with the methods of `ValerisPlugin`.
//! `Plugin` is the sum of the checks: the list of checks for a platform holds
//! values of it.

pub mod common;
pub mod docker;

use crate::docker::model::{finding_views, ContainerInfo, Finding, FindingView, RiskLevel};
use crate::plugins::common::{restart_policy_findings, secrets_findings};
use crate::plugins::common::{RestartPolicyPlugin, SecretsPlugin};
use crate::plugins::docker::{
    capabilities_findings,
    ipc_mode_findings,
    mount_findings,
    network_findings,
    pid_mode_findings,
    pids_limit_findings,
    port_findings,
    privileged_findings,
    readonly_findings,
    resource_limits_findings,
    security_opt_findings,
    user_findings,
    userns_findings,
    uts_mode_findings,
    CapabilitiesPlugin,
    IpcModePlugin,
    MountPlugin,
    NetworkPlugin,
    PidModePlugin,
    PidsLimitPlugin,
    PortPlugin,
    PrivilegedPlugin,
    ReadOnlyRootFSPlugin,
    ResourceLimitsPlugin,
    SecurityOptPlugin,
    UserNamespacePlugin,
    UserPlugin,
    UtsModePlugin,
};
use vstd::prelude::*;

verus! {

/// The platforms that a check is for.
#[derive(Debug, Clone, Copy, PartialEq, Eq, Structural)]
pub enum PluginTarget {
    Docker,
    Kubernetes,
    Both,
}

/// What a check is run on.
#[derive(Debug)]
pub enum ScanInput {
    DockerContainer(ContainerInfo),
}

impl ScanInput {
    /// The container of the input.
    pub open spec fn container(self) -> ContainerInfo {
        match self {
            ScanInput::DockerContainer(c) => c,
        }
    }
}

/// A check on an inspected container.
pub trait ValerisPlugin {
    /// The id by which the check is selected.
    fn id(&self) -> &str;

    /// The name of the check.
    fn name(&self) -> &str;

    /// The platforms that the check is for.
    fn target(&self) -> PluginTarget;

    /// What the check looks for.
    fn description(&self) -> &str;

    /// The findings of the check on `input`.
    fn run(&self, input: &ScanInput) -> Vec<Finding>;
}

/// A finding of a check. It has no line.
pub open spec fn plugin_finding(kind: Seq<char>, description: Seq<char>, risk: RiskLevel) -> FindingView {
    FindingView { kind, description, risk, line: None }
}

/// A finding of a check.
pub fn new_finding(kind: &str, description: String, risk: RiskLevel) -> (finding: Finding)
    ensures
        finding@ == plugin_finding(kind@, description@, risk),
{
    Finding { kind: kind.to_owned(), description, risk, line: None }
}

/// The one finding of a check, or none.
pub fn finding_if(found: bool, kind: &str, description: &str, risk: RiskLevel) -> (findings: Vec<
    Finding,
>)
    ensures
        finding_views(findings@) == if found {
            seq![plugin_finding(kind@, description@, risk)]
        } else {
            Seq::<FindingView>::empty()
        },
{
    let mut findings: Vec<Finding> = Vec::new();
    if found {
        findings.push(new_finding(kind, description.to_owned(), risk));
        assert(finding_views(findings@) =~= seq![plugin_finding(kind@, description@, risk)]);
    } else {
        assert(finding_views(findings@) =~= Seq::<FindingView>::empty());
    }
    findings
}

/// The checks.
#[derive(Debug, Clone, Copy, PartialEq, Eq, Structural)]
pub enum Plugin {
    User,
    Network,
    Mounts,
    Ports,
    Capabilities,
    PidMode,
    IpcMode,
    UtsMode,
    Privileged,
    ReadOnlyRootFS,
    SecurityOpt,
    ResourceLimits,
    UserNamespace,
    PidsLimit,
    RestartPolicy,
    Secrets,
}

impl Plugin {
    /// The platforms that the check is for: the checks of the restart policy
    /// and of the environment are for both, the others for Docker.
    pub open spec fn spec_target(self) -> PluginTarget {
        match self {
            Plugin::RestartPolicy => PluginTarget::Both,
            Plugin::Secrets => PluginTarget::Both,
            _ => PluginTarget::Docker,
        }
    }

    /// The id by which the check is selected.
    pub open spec fn spec_id(self) -> Seq<char> {
        match self {
            Plugin::User => "root_user"@,
            Plugin::Network => "network"@,
            Plugin::Mounts => "mounts"@,
            Plugin::Ports => "exposed_ports"@,
            Plugin::Capabilities => "capabilities"@,
            Plugin::PidMode => "pid_mode"@,
            Plugin::IpcMode => "ipc_mode"@,
            Plugin::UtsMode => "uts_mode"@,
            Plugin::Privileged => "privileged_mode"@,
            Plugin::ReadOnlyRootFS => "readonly_rootfs"@,
            Plugin::SecurityOpt => "security_options"@,
            Plugin::ResourceLimits => "resource_limits"@,
            Plugin::UserNamespace => "user_namespace"@,
            Plugin::PidsLimit => "pids_limit"@,
            Plugin::RestartPolicy => "restart_policy"@,
            Plugin::Secrets => "secrets_in_env"@,
        }
    }

    /// The name of the check.
    pub open spec fn spec_name(self) -> Seq<char> {
        match self {
            Plugin::User => "Root User Checker"@,
            Plugin::Network => "Host Network Mode Checker"@,
            Plugin::Mounts => "Sensitive Mounts Checker"@,
            Plugin::Ports => "Exposed Ports Analyzer"@,
            Plugin::Capabilities => "Linux Capabilities Checker"@,
            Plugin::PidMode => "Host PID Mode Checker"@,
            Plugin::IpcMode => "Host IPC Mode Checker"@,
            Plugin::UtsMode => "Host UTS Mode Checker"@,
            Plugin::Privileged => "Privileged Mode Checker"@,
            Plugin::ReadOnlyRootFS => "Read-Only Root Filesystem Checker"@,
            Plugin::SecurityOpt => "Security Options Analyzer"@,
            Plugin::ResourceLimits => "Resource Limits Checker"@,
            Plugin::UserNamespace => "User Namespace Mode Checker"@,
            Plugin::PidsLimit => "PIDs Limit Checker"@,
            Plugin::RestartPolicy => "Restart Policy Checker"@,
            Plugin::Secrets => "Sensitive Environment Variables Checker"@,
        }
    }

    /// What the check looks for.
    pub open spec fn spec_description(self) -> Seq<char> {
        match self {
            Plugin::User => "Detects if the Docker container is running as the root user, which increases the impact of a container compromise."@,
            Plugin::Network => "Detects if a Docker container is using the host network mode, which can lead to network isolation bypass and security risks."@,
            Plugin::Mounts => "Detects mounted host paths in Docker containers, flagging high-risk directories like /proc or /var/run/docker.sock that may expose the host."@,
            Plugin::Ports => "Identifies exposed ports in Docker containers and highlights those bound to all interfaces (0.0.0.0 or ::), which can pose external attack risks."@,
            Plugin::Capabilities => "Checks for added Linux capabilities in Docker containers, highlighting potentially dangerous ones like SYS_ADMIN or NET_ADMIN."@,
            Plugin::PidMode => "Checks if the Docker container is using the host PID namespace, which may expose process information and allow process-level attacks."@,
            Plugin::IpcMode => "Checks if the Docker container is sharing the host IPC namespace."@,
            Plugin::UtsMode => "Checks if the Docker container shares the host UTS namespace."@,
            Plugin::Privileged => "Detects if a Docker container is running in privileged mode, which grants extended host access and poses a significant security risk."@,
            Plugin::ReadOnlyRootFS => "Checks if the Docker container is using a read-only root filesystem, which helps reduce the impact of container compromise by preventing writes."@,
            Plugin::SecurityOpt => "Analyzes Docker container security options, highlighting dangerous configurations like 'unconfined' AppArmor or seccomp profiles."@,
            Plugin::ResourceLimits => "Detects containers running without configured memory or CPU limits."@,
            Plugin::UserNamespace => "Detects if a Docker container is running without user namespaces or with host user namespace mode, which increases the impact of a container compromise."@,
            Plugin::PidsLimit => "Ensures a maximum number of processes is configured for Docker containers to mitigate resource exhaustion attacks."@,
            Plugin::RestartPolicy => "Checks the Docker container's restart policy configuration to assess resilience and identify missing or unusual settings."@,
            Plugin::Secrets => "Scans container environment variables for hardcoded secrets such as passwords, tokens, or API keys, which pose a serious security risk."@,
        }
    }

    /// The findings of the check on a container.
    pub open spec fn findings(self, c: ContainerInfo) -> Seq<FindingView> {
        match self {
            Plugin::User => user_findings(c),
            Plugin::Network => network_findings(c),
            Plugin::Mounts => mount_findings(c),
            Plugin::Ports => port_findings(c),
            Plugin::Capabilities => capabilities_findings(c),
            Plugin::PidMode => pid_mode_findings(c),
            Plugin::IpcMode => ipc_mode_findings(c),
            Plugin::UtsMode => uts_mode_findings(c),
            Plugin::Privileged => privileged_findings(c),
            Plugin::ReadOnlyRootFS => readonly_findings(c),
            Plugin::SecurityOpt => security_opt_findings(c),
            Plugin::ResourceLimits => resource_limits_findings(c),
            Plugin::UserNamespace => userns_findings(c),
            Plugin::PidsLimit => pids_limit_findings(c),
            Plugin::RestartPolicy => restart_policy_findings(c),
            Plugin::Secrets => secrets_findings(c),
        }
    }

    /// The id by which the check is selected.
    pub fn id(&self) -> (id: &str)
        ensures
            id@ == self.spec_id(),
    {
        match self {
            Plugin::User => UserPlugin.id(),
            Plugin::Network => NetworkPlugin.id(),
            Plugin::Mounts => MountPlugin.id(),
            Plugin::Ports => PortPlugin.id(),
            Plugin::Capabilities => CapabilitiesPlugin.id(),
            Plugin::PidMode => PidModePlugin.id(),
            Plugin::IpcMode => IpcModePlugin.id(),
            Plugin::UtsMode => UtsModePlugin.id(),
            Plugin::Privileged => PrivilegedPlugin.id(),
            Plugin::ReadOnlyRootFS => ReadOnlyRootFSPlugin.id(),
            Plugin::SecurityOpt => SecurityOptPlugin.id(),
            Plugin::ResourceLimits => ResourceLimitsPlugin.id(),
            Plugin::UserNamespace => UserNamespacePlugin.id(),
            Plugin::PidsLimit => PidsLimitPlugin.id(),
            Plugin::RestartPolicy => RestartPolicyPlugin.id(),
            Plugin::Secrets => SecretsPlugin.id(),
        }
    }

    /// The name of the check.
    pub fn name(&self) -> (name: &str)
        ensures
            name@ == self.spec_name(),
    {
        match self {
            Plugin::User => UserPlugin.name(),
            Plugin::Network => NetworkPlugin.name(),
            Plugin::Mounts => MountPlugin.name(),
            Plugin::Ports => PortPlugin.name(),
            Plugin::Capabilities => CapabilitiesPlugin.name(),
            Plugin::PidMode => PidModePlugin.name(),
            Plugin::IpcMode => IpcModePlugin.name(),
            Plugin::UtsMode => UtsModePlugin.name(),
            Plugin::Privileged => PrivilegedPlugin.name(),
            Plugin::ReadOnlyRootFS => ReadOnlyRootFSPlugin.name(),
            Plugin::SecurityOpt => SecurityOptPlugin.name(),
            Plugin::ResourceLimits => ResourceLimitsPlugin.name(),
            Plugin::UserNamespace => UserNamespacePlugin.name(),
            Plugin::PidsLimit => PidsLimitPlugin.name(),
            Plugin::RestartPolicy => RestartPolicyPlugin.name(),
            Plugin::Secrets => SecretsPlugin.name(),
        }
    }

    /// What the check looks for.
    pub fn description(&self) -> (description: &str)
        ensures
            description@ == self.spec_description(),
    {
        match self {
            Plugin::User => UserPlugin.description(),
            Plugin::Network => NetworkPlugin.description(),
            Plugin::Mounts => MountPlugin.description(),
            Plugin::Ports => PortPlugin.description(),
            Plugin::Capabilities => CapabilitiesPlugin.description(),
            Plugin::PidMode => PidModePlugin.description(),
            Plugin::IpcMode => IpcModePlugin.description(),
            Plugin::UtsMode => UtsModePlugin.description(),
            Plugin::Privileged => PrivilegedPlugin.description(),
            Plugin::ReadOnlyRootFS => ReadOnlyRootFSPlugin.description(),
            Plugin::SecurityOpt => SecurityOptPlugin.description(),
            Plugin::ResourceLimits => ResourceLimitsPlugin.description(),
            Plugin::UserNamespace => UserNamespacePlugin.description(),
            Plugin::PidsLimit => PidsLimitPlugin.description(),
            Plugin::RestartPolicy => RestartPolicyPlugin.description(),
            Plugin::Secrets => SecretsPlugin.description(),
        }
    }

    /// The platforms that the check is for.
    pub fn target(&self) -> (target: PluginTarget)
        ensures
            target == self.spec_target(),
    {
        match self {
            Plugin::User => UserPlugin.target(),
            Plugin::Network => NetworkPlugin.target(),
            Plugin::Mounts => MountPlugin.target(),
            Plugin::Ports => PortPlugin.target(),
            Plugin::Capabilities => CapabilitiesPlugin.target(),
            Plugin::PidMode => PidModePlugin.target(),
            Plugin::IpcMode => IpcModePlugin.target(),
            Plugin::UtsMode => UtsModePlugin.target(),
            Plugin::Privileged => PrivilegedPlugin.target(),
            Plugin::ReadOnlyRootFS => ReadOnlyRootFSPlugin.target(),
            Plugin::SecurityOpt => SecurityOptPlugin.target(),
            Plugin::ResourceLimits => ResourceLimitsPlugin.target(),
            Plugin::UserNamespace => UserNamespacePlugin.target(),
            Plugin::PidsLimit => PidsLimitPlugin.target(),
            Plugin::RestartPolicy => RestartPolicyPlugin.target(),
            Plugin::Secrets => SecretsPlugin.target(),
        }
    }

    /// The findings of the check on `input`.
    pub fn run(&self, input: &ScanInput) -> (findings: Vec<Finding>)
        ensures
            finding_views(findings@) == self.findings(input.container()),
    {
        match self {
            Plugin::User => UserPlugin.run(input),
            Plugin::Network => NetworkPlugin.run(input),
            Plugin::Mounts => MountPlugin.run(input),
            Plugin::Ports => PortPlugin.run(input),
            Plugin::Capabilities => CapabilitiesPlugin.run(input),
            Plugin::PidMode => PidModePlugin.run(input),
            Plugin::IpcMode => IpcModePlugin.run(input),
            Plugin::UtsMode => UtsModePlugin.run(input),
            Plugin::Privileged => PrivilegedPlugin.run(input),
            Plugin::ReadOnlyRootFS => ReadOnlyRootFSPlugin.run(input),
            Plugin::SecurityOpt => SecurityOptPlugin.run(input),
            Plugin::ResourceLimits => ResourceLimitsPlugin.run(input),
            Plugin::UserNamespace => UserNamespacePlugin.run(input),
            Plugin::PidsLimit => PidsLimitPlugin.run(input),
            Plugin::RestartPolicy => RestartPolicyPlugin.run(input),
            Plugin::Secrets => SecretsPlugin.run(input),
        }
    }
}

/// Whether a check for `own` is a check for the platform `wanted`: every
/// check is one for `Both`, and a check for both platforms is one for each.
pub open spec fn serves(own: PluginTarget, wanted: PluginTarget) -> bool {
    wanted == PluginTarget::Both || own == wanted || own == PluginTarget::Both
}

/// All the checks: those for Docker first, then those for both platforms.
pub open spec fn all_plugins() -> Seq<Plugin> {
    crate::plugins::docker::docker_plugins() + crate::plugins::common::common_plugins()
}

/// The checks for the platform `target`, in the order of `all_plugins`.
pub fn load_plugins_for_target(target: PluginTarget) -> (plugins: Vec<Plugin>)
    ensures
        plugins@ == crate::seqs::kept(
            all_plugins(),
            |p: Plugin| serves(p.spec_target(), target),
        ),
{
    let mut all = crate::plugins::docker::get_docker_plugins();
    let mut common = crate::plugins::common::get_common_plugins();
    all.append(&mut common);
    let ghost keep = |p: Plugin| serves(p.spec_target(), target);
    let mut plugins: Vec<Plugin> = Vec::new();
    let mut i: usize = 0;
    assert(all@.take(0) =~= Seq::<Plugin>::empty());
    while i < all.len()
        invariant
            i <= all.len(),
            all@ == all_plugins(),
            keep == (|p: Plugin| serves(p.spec_target(), target)),
            plugins@ == crate::seqs::kept(all@.take(i as int), keep),
        decreases all.len() - i,
    {
        proof {
            assert(all@.take(i + 1).drop_last() =~= all@.take(i as int));
            assert(all@.take(i + 1).last() == all@[i as int]);
        }
        let plugin = all[i];
        let own = plugin.target();
        if target == PluginTarget::Both || own == target || own == PluginTarget::Both {
            plugins.push(plugin);
        }
        i += 1;
    }
    assert(all@.take(all@.len() as int) =~= all@);
    plugins
}

} // verus!
