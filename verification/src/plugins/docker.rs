//! The checks for Docker containers.

use crate::docker::model::{
    finding_views,
    ContainerInfo,
    Finding,
    FindingView,
    Mount,
    PortBinding,
    PortMapping,
    RiskLevel,
    Ulimit,
};
use crate::plugins::{
    finding_if,
    new_finding,
    plugin_finding,
    Plugin,
    PluginTarget,
    ScanInput,
    ValerisPlugin,
};
use crate::text::{
    chars_of,
    contains_str,
    contains_text,
    occurs_at,
    push_str_chars,
    same_text,
    starts_with_str,
    string_of,
    trim,
    trimmed,
    uppercase_of,
};
use vstd::prelude::*;

verus! {

/// The check for containers that run as root.
pub struct UserPlugin;

/// The check for containers in the host's network.
pub struct NetworkPlugin;

/// The check that lists the mounts of a container.
pub struct MountPlugin;

/// The check that lists the exposed ports of a container.
pub struct PortPlugin;

/// The check that lists the added capabilities of a container.
pub struct CapabilitiesPlugin;

/// The check for containers in the host's PID namespace.
pub struct PidModePlugin;

/// The check for containers in the host's IPC namespace.
pub struct IpcModePlugin;

/// The check for containers in the host's UTS namespace.
pub struct UtsModePlugin;

/// The check for privileged containers.
pub struct PrivilegedPlugin;

/// The check for containers with a read-only root file system.
pub struct ReadOnlyRootFSPlugin;

/// The check that lists the security options of a container.
pub struct SecurityOptPlugin;

/// The check for containers without memory or CPU limit.
pub struct ResourceLimitsPlugin;

/// The check for containers without user namespace.
pub struct UserNamespacePlugin;

/// The check for containers with an unbounded number of processes.
pub struct PidsLimitPlugin;

/// The checks for Docker containers, in the order in which they are run.
pub open spec fn docker_plugins() -> Seq<Plugin> {
    seq![
        Plugin::User,
        Plugin::Network,
        Plugin::Mounts,
        Plugin::Ports,
        Plugin::Capabilities,
        Plugin::PidMode,
        Plugin::IpcMode,
        Plugin::UtsMode,
        Plugin::Privileged,
        Plugin::ReadOnlyRootFS,
        Plugin::SecurityOpt,
        Plugin::ResourceLimits,
        Plugin::UserNamespace,
        Plugin::PidsLimit,
    ]
}

/// The checks for Docker containers.
pub fn get_docker_plugins() -> (plugins: Vec<Plugin>)
    ensures
        plugins@ == docker_plugins(),
{
    let mut plugins: Vec<Plugin> = Vec::new();
    plugins.push(Plugin::User);
    plugins.push(Plugin::Network);
    plugins.push(Plugin::Mounts);
    plugins.push(Plugin::Ports);
    plugins.push(Plugin::Capabilities);
    plugins.push(Plugin::PidMode);
    plugins.push(Plugin::IpcMode);
    plugins.push(Plugin::UtsMode);
    plugins.push(Plugin::Privileged);
    plugins.push(Plugin::ReadOnlyRootFS);
    plugins.push(Plugin::SecurityOpt);
    plugins.push(Plugin::ResourceLimits);
    plugins.push(Plugin::UserNamespace);
    plugins.push(Plugin::PidsLimit);
    assert(plugins@ =~= docker_plugins());
    plugins
}

/// Whether an optional text is the text `expected`.
pub open spec fn is_text(text: Option<String>, expected: Seq<char>) -> bool {
    text matches Some(t) && t@ == expected
}

/// Whether an optional text is the text `expected`.
fn text_is(text: &Option<String>, expected: &str) -> (b: bool)
    ensures
        b == is_text(*text, expected@),
{
    match text {
        Some(t) => same_text(t.as_str(), expected),
        None => false,
    }
}

/// The text of an optional string, or the empty text.
pub open spec fn text_or_empty(text: Option<String>) -> Seq<char> {
    match text {
        Some(t) => t@,
        None => Seq::empty(),
    }
}

/// The text of an optional string, or the empty text.
fn text_or_default(text: &Option<String>) -> (r: String)
    ensures
        r@ == text_or_empty(*text),
{
    match text {
        Some(t) => t.clone(),
        None => String::new(),
    }
}

/// The user that a container runs as: the one it names or, where it names
/// none or only white space, `root`.
pub open spec fn effective_user(c: ContainerInfo) -> Seq<char> {
    match c.user {
        Some(user) => if trimmed(user@).len() > 0 {
            user@
        } else {
            "root"@
        },
        None => "root"@,
    }
}

/// A container that runs as `root` or as user `0` gives one finding.
pub open spec fn user_findings(c: ContainerInfo) -> Seq<FindingView> {
    if effective_user(c) == "root"@ || effective_user(c) == "0"@ {
        seq![plugin_finding("User"@, "Container is running as root"@, RiskLevel::High)]
    } else {
        Seq::empty()
    }
}

impl ValerisPlugin for UserPlugin {
    fn id(&self) -> (id: &str)
        ensures
            id@ == "root_user"@,
    {
        "root_user"
    }

    fn name(&self) -> (name: &str)
        ensures
            name@ == "Root User Checker"@,
    {
        "Root User Checker"
    }

    fn target(&self) -> (target: PluginTarget)
        ensures
            target == PluginTarget::Docker,
    {
        PluginTarget::Docker
    }

    fn description(&self) -> (description: &str)
        ensures
            description@ == "Detects if the Docker container is running as the root user, which increases the impact of a container compromise."@,
    {
        "Detects if the Docker container is running as the root user, which increases the impact of a container compromise."
    }

    fn run(&self, input: &ScanInput) -> (findings: Vec<Finding>)
        ensures
            finding_views(findings@) == user_findings(input.container()),
    {
        let ScanInput::DockerContainer(container) = input;
        let as_root = match &container.user {
            Some(user) => {
                let stripped = trim(user.as_str());
                if stripped.as_str().is_empty() {
                    proof {
                        reveal_strlit("root");
                        reveal_strlit("0");
                    }
                    true
                } else {
                    same_text(user.as_str(), "root") || same_text(user.as_str(), "0")
                }
            },
            None => {
                proof {
                    reveal_strlit("root");
                    reveal_strlit("0");
                }
                true
            },
        };
        finding_if(as_root, "User", "Container is running as root", RiskLevel::High)
    }
}

/// A container in the host's network gives one finding.
pub open spec fn network_findings(c: ContainerInfo) -> Seq<FindingView> {
    if is_text(c.network_mode, "host"@) {
        seq![plugin_finding("Network"@, "Container is using host network mode"@, RiskLevel::High)]
    } else {
        Seq::empty()
    }
}

impl ValerisPlugin for NetworkPlugin {
    fn id(&self) -> (id: &str)
        ensures
            id@ == "network"@,
    {
        "network"
    }

    fn name(&self) -> (name: &str)
        ensures
            name@ == "Host Network Mode Checker"@,
    {
        "Host Network Mode Checker"
    }

    fn target(&self) -> (target: PluginTarget)
        ensures
            target == PluginTarget::Docker,
    {
        PluginTarget::Docker
    }

    fn description(&self) -> (description: &str)
        ensures
            description@ == "Detects if a Docker container is using the host network mode, which can lead to network isolation bypass and security risks."@,
    {
        "Detects if a Docker container is using the host network mode, which can lead to network isolation bypass and security risks."
    }

    fn run(&self, input: &ScanInput) -> (findings: Vec<Finding>)
        ensures
            finding_views(findings@) == network_findings(input.container()),
    {
        let ScanInput::DockerContainer(container) = input;
        finding_if(
            text_is(&container.network_mode, "host"),
            "Network",
            "Container is using host network mode",
            RiskLevel::High,
        )
    }
}

/// A container in the host's PID namespace gives one finding.
pub open spec fn pid_mode_findings(c: ContainerInfo) -> Seq<FindingView> {
    if is_text(c.pid_mode, "host"@) {
        seq![plugin_finding("PID Mode"@, "Container is using host PID mode"@, RiskLevel::Informative)]
    } else {
        Seq::empty()
    }
}

impl ValerisPlugin for PidModePlugin {
    fn id(&self) -> (id: &str)
        ensures
            id@ == "pid_mode"@,
    {
        "pid_mode"
    }

    fn name(&self) -> (name: &str)
        ensures
            name@ == "Host PID Mode Checker"@,
    {
        "Host PID Mode Checker"
    }

    fn target(&self) -> (target: PluginTarget)
        ensures
            target == PluginTarget::Docker,
    {
        PluginTarget::Docker
    }

    fn description(&self) -> (description: &str)
        ensures
            description@ == "Checks if the Docker container is using the host PID namespace, which may expose process information and allow process-level attacks."@,
    {
        "Checks if the Docker container is using the host PID namespace, which may expose process information and allow process-level attacks."
    }

    fn run(&self, input: &ScanInput) -> (findings: Vec<Finding>)
        ensures
            finding_views(findings@) == pid_mode_findings(input.container()),
    {
        let ScanInput::DockerContainer(container) = input;
        finding_if(
            text_is(&container.pid_mode, "host"),
            "PID Mode",
            "Container is using host PID mode",
            RiskLevel::Informative,
        )
    }
}

/// A container in the host's IPC namespace gives one finding.
pub open spec fn ipc_mode_findings(c: ContainerInfo) -> Seq<FindingView> {
    if is_text(c.ipc_mode, "host"@) {
        seq![plugin_finding("IPC Mode"@, "Container is using host IPC mode"@, RiskLevel::Medium)]
    } else {
        Seq::empty()
    }
}

impl ValerisPlugin for IpcModePlugin {
    fn id(&self) -> (id: &str)
        ensures
            id@ == "ipc_mode"@,
    {
        "ipc_mode"
    }

    fn name(&self) -> (name: &str)
        ensures
            name@ == "Host IPC Mode Checker"@,
    {
        "Host IPC Mode Checker"
    }

    fn target(&self) -> (target: PluginTarget)
        ensures
            target == PluginTarget::Docker,
    {
        PluginTarget::Docker
    }

    fn description(&self) -> (description: &str)
        ensures
            description@ == "Checks if the Docker container is sharing the host IPC namespace."@,
    {
        "Checks if the Docker container is sharing the host IPC namespace."
    }

    fn run(&self, input: &ScanInput) -> (findings: Vec<Finding>)
        ensures
            finding_views(findings@) == ipc_mode_findings(input.container()),
    {
        let ScanInput::DockerContainer(container) = input;
        finding_if(
            text_is(&container.ipc_mode, "host"),
            "IPC Mode",
            "Container is using host IPC mode",
            RiskLevel::Medium,
        )
    }
}

/// A container in the host's UTS namespace gives one finding.
pub open spec fn uts_mode_findings(c: ContainerInfo) -> Seq<FindingView> {
    if is_text(c.uts_mode, "host"@) {
        seq![plugin_finding("UTS Mode"@, "Container is using host UTS mode"@, RiskLevel::Medium)]
    } else {
        Seq::empty()
    }
}

impl ValerisPlugin for UtsModePlugin {
    fn id(&self) -> (id: &str)
        ensures
            id@ == "uts_mode"@,
    {
        "uts_mode"
    }

    fn name(&self) -> (name: &str)
        ensures
            name@ == "Host UTS Mode Checker"@,
    {
        "Host UTS Mode Checker"
    }

    fn target(&self) -> (target: PluginTarget)
        ensures
            target == PluginTarget::Docker,
    {
        PluginTarget::Docker
    }

    fn description(&self) -> (description: &str)
        ensures
            description@ == "Checks if the Docker container shares the host UTS namespace."@,
    {
        "Checks if the Docker container shares the host UTS namespace."
    }

    fn run(&self, input: &ScanInput) -> (findings: Vec<Finding>)
        ensures
            finding_views(findings@) == uts_mode_findings(input.container()),
    {
        let ScanInput::DockerContainer(container) = input;
        finding_if(
            text_is(&container.uts_mode, "host"),
            "UTS Mode",
            "Container is using host UTS mode",
            RiskLevel::Medium,
        )
    }
}

/// A privileged container gives one finding.
pub open spec fn privileged_findings(c: ContainerInfo) -> Seq<FindingView> {
    if c.privileged == Some(true) {
        seq![
            plugin_finding(
                "Privileged"@,
                "Container is running in privileged mode"@,
                RiskLevel::High,
            ),
        ]
    } else {
        Seq::empty()
    }
}

impl ValerisPlugin for PrivilegedPlugin {
    fn id(&self) -> (id: &str)
        ensures
            id@ == "privileged_mode"@,
    {
        "privileged_mode"
    }

    fn name(&self) -> (name: &str)
        ensures
            name@ == "Privileged Mode Checker"@,
    {
        "Privileged Mode Checker"
    }

    fn target(&self) -> (target: PluginTarget)
        ensures
            target == PluginTarget::Docker,
    {
        PluginTarget::Docker
    }

    fn description(&self) -> (description: &str)
        ensures
            description@ == "Detects if a Docker container is running in privileged mode, which grants extended host access and poses a significant security risk."@,
    {
        "Detects if a Docker container is running in privileged mode, which grants extended host access and poses a significant security risk."
    }

    fn run(&self, input: &ScanInput) -> (findings: Vec<Finding>)
        ensures
            finding_views(findings@) == privileged_findings(input.container()),
    {
        let ScanInput::DockerContainer(container) = input;
        let privileged = match container.privileged {
            Some(b) => b,
            None => false,
        };
        finding_if(
            privileged,
            "Privileged",
            "Container is running in privileged mode",
            RiskLevel::High,
        )
    }
}

/// A container with a read-only root file system gives one finding.
pub open spec fn readonly_findings(c: ContainerInfo) -> Seq<FindingView> {
    if c.readonly_rootfs == Some(true) {
        seq![
            plugin_finding(
                "Read-Only"@,
                "Container is running in read-only mode"@,
                RiskLevel::Informative,
            ),
        ]
    } else {
        Seq::empty()
    }
}

impl ValerisPlugin for ReadOnlyRootFSPlugin {
    fn id(&self) -> (id: &str)
        ensures
            id@ == "readonly_rootfs"@,
    {
        "readonly_rootfs"
    }

    fn name(&self) -> (name: &str)
        ensures
            name@ == "Read-Only Root Filesystem Checker"@,
    {
        "Read-Only Root Filesystem Checker"
    }

    fn target(&self) -> (target: PluginTarget)
        ensures
            target == PluginTarget::Docker,
    {
        PluginTarget::Docker
    }

    fn description(&self) -> (description: &str)
        ensures
            description@ == "Checks if the Docker container is using a read-only root filesystem, which helps reduce the impact of container compromise by preventing writes."@,
    {
        "Checks if the Docker container is using a read-only root filesystem, which helps reduce the impact of container compromise by preventing writes."
    }

    fn run(&self, input: &ScanInput) -> (findings: Vec<Finding>)
        ensures
            finding_views(findings@) == readonly_findings(input.container()),
    {
        let ScanInput::DockerContainer(container) = input;
        let read_only = match container.readonly_rootfs {
            Some(b) => b,
            None => false,
        };
        finding_if(
            read_only,
            "Read-Only",
            "Container is running in read-only mode",
            RiskLevel::Informative,
        )
    }
}

/// A container without user namespace, or in the host's, gives one finding.
pub open spec fn userns_findings(c: ContainerInfo) -> Seq<FindingView> {
    if c.userns_mode is None || is_text(c.userns_mode, "host"@) {
        seq![
            plugin_finding(
                "User Namespace"@,
                "Container is running without user namespaces"@,
                RiskLevel::High,
            ),
        ]
    } else {
        Seq::empty()
    }
}

impl ValerisPlugin for UserNamespacePlugin {
    fn id(&self) -> (id: &str)
        ensures
            id@ == "user_namespace"@,
    {
        "user_namespace"
    }

    fn name(&self) -> (name: &str)
        ensures
            name@ == "User Namespace Mode Checker"@,
    {
        "User Namespace Mode Checker"
    }

    fn target(&self) -> (target: PluginTarget)
        ensures
            target == PluginTarget::Docker,
    {
        PluginTarget::Docker
    }

    fn description(&self) -> (description: &str)
        ensures
            description@ == "Detects if a Docker container is running without user namespaces or with host user namespace mode, which increases the impact of a container compromise."@,
    {
        "Detects if a Docker container is running without user namespaces or with host user namespace mode, which increases the impact of a container compromise."
    }

    fn run(&self, input: &ScanInput) -> (findings: Vec<Finding>)
        ensures
            finding_views(findings@) == userns_findings(input.container()),
    {
        let ScanInput::DockerContainer(container) = input;
        let unprotected = container.userns_mode.is_none() || text_is(&container.userns_mode, "host");
        finding_if(
            unprotected,
            "User Namespace",
            "Container is running without user namespaces",
            RiskLevel::High,
        )
    }
}

/// Whether a limit is set: it is given and above zero.
pub open spec fn limit_set(limit: Option<i64>) -> bool {
    limit matches Some(n) && n > 0
}

/// Whether a limit is set.
fn is_limit_set(limit: Option<i64>) -> (b: bool)
    ensures
        b == limit_set(limit),
{
    match limit {
        Some(n) => n > 0,
        None => false,
    }
}

/// A container without memory limit gives a finding, and one without CPU
/// limit gives a finding, in this order.
pub open spec fn resource_limits_findings(c: ContainerInfo) -> Seq<FindingView> {
    (if limit_set(c.memory) {
        Seq::<FindingView>::empty()
    } else {
        seq![plugin_finding("ResourceLimits"@, "Memory limit not set"@, RiskLevel::Medium)]
    }) + (if limit_set(c.nano_cpus) || limit_set(c.cpu_shares) {
        Seq::<FindingView>::empty()
    } else {
        seq![plugin_finding("ResourceLimits"@, "CPU limit not set"@, RiskLevel::Medium)]
    })
}

impl ValerisPlugin for ResourceLimitsPlugin {
    fn id(&self) -> (id: &str)
        ensures
            id@ == "resource_limits"@,
    {
        "resource_limits"
    }

    fn name(&self) -> (name: &str)
        ensures
            name@ == "Resource Limits Checker"@,
    {
        "Resource Limits Checker"
    }

    fn target(&self) -> (target: PluginTarget)
        ensures
            target == PluginTarget::Docker,
    {
        PluginTarget::Docker
    }

    fn description(&self) -> (description: &str)
        ensures
            description@ == "Detects containers running without configured memory or CPU limits."@,
    {
        "Detects containers running without configured memory or CPU limits."
    }

    fn run(&self, input: &ScanInput) -> (findings: Vec<Finding>)
        ensures
            finding_views(findings@) == resource_limits_findings(input.container()),
    {
        let ScanInput::DockerContainer(container) = input;
        let memory_set = is_limit_set(container.memory);
        let cpu_set = is_limit_set(container.nano_cpus) || is_limit_set(container.cpu_shares);
        let mut findings = finding_if(
            !memory_set,
            "ResourceLimits",
            "Memory limit not set",
            RiskLevel::Medium,
        );
        let cpu = finding_if(!cpu_set, "ResourceLimits", "CPU limit not set", RiskLevel::Medium);
        crate::detectors::dockerfile::scanner::extend_findings(&mut findings, cpu);
        findings
    }
}

/// Whether a resource limit bounds the number of processes: its name is
/// `nproc` or `pids`, and its soft or its hard limit is above zero.
pub open spec fn bounds_processes(limit: Ulimit) -> bool {
    &&& text_or_empty(limit.name) == "nproc"@ || text_or_empty(limit.name) == "pids"@
    &&& limit_set(limit.soft) || limit_set(limit.hard)
}

/// Whether the number of processes of a container is bounded, by its limit
/// of process ids or by one of its resource limits.
pub open spec fn processes_bounded(c: ContainerInfo) -> bool {
    limit_set(c.pids_limit) || (c.ulimits matches Some(limits) && exists|i: int|
        0 <= i < limits@.len() && bounds_processes(#[trigger] limits@[i]))
}

/// A container whose number of processes is not bounded gives one finding.
pub open spec fn pids_limit_findings(c: ContainerInfo) -> Seq<FindingView> {
    if processes_bounded(c) {
        Seq::empty()
    } else {
        seq![plugin_finding("PIDs Limit"@, "PIDs limit not set"@, RiskLevel::Medium)]
    }
}

/// Whether one of the resource limits bounds the number of processes.
fn ulimits_bound_processes(limits: &Vec<Ulimit>) -> (b: bool)
    ensures
        b == exists|i: int| 0 <= i < limits@.len() && bounds_processes(#[trigger] limits@[i]),
{
    let mut i: usize = 0;
    while i < limits.len()
        invariant
            i <= limits.len(),
            forall|j: int| 0 <= j < i ==> !bounds_processes(#[trigger] limits@[j]),
        decreases limits.len() - i,
    {
        let name = text_or_default(&limits[i].name);
        let named = same_text(name.as_str(), "nproc") || same_text(name.as_str(), "pids");
        if named && (is_limit_set(limits[i].soft) || is_limit_set(limits[i].hard)) {
            return true;
        }
        i += 1;
    }
    false
}

impl ValerisPlugin for PidsLimitPlugin {
    fn id(&self) -> (id: &str)
        ensures
            id@ == "pids_limit"@,
    {
        "pids_limit"
    }

    fn name(&self) -> (name: &str)
        ensures
            name@ == "PIDs Limit Checker"@,
    {
        "PIDs Limit Checker"
    }

    fn target(&self) -> (target: PluginTarget)
        ensures
            target == PluginTarget::Docker,
    {
        PluginTarget::Docker
    }

    fn description(&self) -> (description: &str)
        ensures
            description@ == "Ensures a maximum number of processes is configured for Docker containers to mitigate resource exhaustion attacks."@,
    {
        "Ensures a maximum number of processes is configured for Docker containers to mitigate resource exhaustion attacks."
    }

    fn run(&self, input: &ScanInput) -> (findings: Vec<Finding>)
        ensures
            finding_views(findings@) == pids_limit_findings(input.container()),
    {
        let ScanInput::DockerContainer(container) = input;
        let has_limit = is_limit_set(container.pids_limit) || match &container.ulimits {
            Some(limits) => ulimits_bound_processes(limits),
            None => false,
        };
        finding_if(!has_limit, "PIDs Limit", "PIDs limit not set", RiskLevel::Medium)
    }
}

/// Whether a host path lies in one of the places that expose the host: the
/// Docker socket, `/proc`, `/sys`, `/etc` and `/root`.
pub open spec fn is_dangerous_source(source: Seq<char>) -> bool {
    occurs_at(source, "/var/run/docker.sock"@, 0) || occurs_at(source, "/proc"@, 0) || occurs_at(
        source,
        "/sys"@,
        0,
    ) || occurs_at(source, "/etc"@, 0) || occurs_at(source, "/root"@, 0)
}

/// The finding for one mount: its source and its destination, with a high
/// risk where the source is dangerous.
pub open spec fn mount_finding(mount: Mount) -> FindingView {
    plugin_finding(
        "Mount"@,
        text_or_empty(mount.source) + " \u{2192} "@ + text_or_empty(mount.destination),
        if is_dangerous_source(text_or_empty(mount.source)) {
            RiskLevel::High
        } else {
            RiskLevel::Informative
        },
    )
}

/// Every mount of a container gives one finding.
pub open spec fn mount_findings(c: ContainerInfo) -> Seq<FindingView> {
    match c.mounts {
        Some(mounts) => Seq::new(mounts@.len(), |i: int| mount_finding(mounts@[i])),
        None => Seq::empty(),
    }
}

impl ValerisPlugin for MountPlugin {
    fn id(&self) -> (id: &str)
        ensures
            id@ == "mounts"@,
    {
        "mounts"
    }

    fn name(&self) -> (name: &str)
        ensures
            name@ == "Sensitive Mounts Checker"@,
    {
        "Sensitive Mounts Checker"
    }

    fn target(&self) -> (target: PluginTarget)
        ensures
            target == PluginTarget::Docker,
    {
        PluginTarget::Docker
    }

    fn description(&self) -> (description: &str)
        ensures
            description@ == "Detects mounted host paths in Docker containers, flagging high-risk directories like /proc or /var/run/docker.sock that may expose the host."@,
    {
        "Detects mounted host paths in Docker containers, flagging high-risk directories like /proc or /var/run/docker.sock that may expose the host."
    }

    fn run(&self, input: &ScanInput) -> (findings: Vec<Finding>)
        ensures
            finding_views(findings@) == mount_findings(input.container()),
    {
        let ScanInput::DockerContainer(container) = input;
        let mut findings: Vec<Finding> = Vec::new();
        if let Some(mounts) = &container.mounts {
            let mut i: usize = 0;
            while i < mounts.len()
                invariant
                    i <= mounts.len(),
                    findings@.len() == i,
                    forall|j: int| 0 <= j < i ==> (#[trigger] findings@[j])@ == mount_finding(mounts@[j]),
                decreases mounts.len() - i,
            {
                let source = text_or_default(&mounts[i].source);
                let destination = text_or_default(&mounts[i].destination);
                let dangerous = starts_with_str(source.as_str(), "/var/run/docker.sock")
                    || starts_with_str(source.as_str(), "/proc") || starts_with_str(
                    source.as_str(),
                    "/sys",
                ) || starts_with_str(source.as_str(), "/etc") || starts_with_str(
                    source.as_str(),
                    "/root",
                );
                let mut out = chars_of(source.as_str());
                push_str_chars(&mut out, " \u{2192} ");
                push_str_chars(&mut out, destination.as_str());
                let risk = if dangerous {
                    RiskLevel::High
                } else {
                    RiskLevel::Informative
                };
                findings.push(new_finding("Mount", string_of(&out), risk));
                i += 1;
            }
            assert(finding_views(findings@) =~= mount_findings(*container));
        } else {
            assert(finding_views(findings@) =~= mount_findings(*container));
        }
        findings
    }
}

/// The risk of an added capability, by its name in upper case.
pub open spec fn capability_risk(name: Seq<char>) -> RiskLevel {
    if name == "SYS_ADMIN"@ || name == "ALL"@ || name == "NET_ADMIN"@ || name == "SYS_MODULE"@
        || name == "SYS_PTRACE"@ {
        RiskLevel::High
    } else if name == "SYS_TIME"@ || name == "MKNOD"@ || name == "CHOWN"@ || name == "FOWNER"@
        || name == "DAC_OVERRIDE"@ || name == "AUDIT_WRITE"@ || name == "KILL"@ {
        RiskLevel::Medium
    } else {
        RiskLevel::Low
    }
}

/// The finding for one added capability.
pub open spec fn capability_finding(capability: Seq<char>) -> FindingView {
    plugin_finding(
        "Capabilities"@,
        "Capability '"@ + capability + "' added"@,
        capability_risk(uppercase_of(capability)),
    )
}

/// Every added capability of a container gives one finding.
pub open spec fn capabilities_findings(c: ContainerInfo) -> Seq<FindingView> {
    match c.cap_add {
        Some(capabilities) => Seq::new(
            capabilities@.len(),
            |i: int| capability_finding(capabilities@[i]@),
        ),
        None => Seq::empty(),
    }
}

/// The risk of an added capability, by its name in upper case.
pub fn risk_of_capability(name: &str) -> (risk: RiskLevel)
    ensures
        risk == capability_risk(name@),
{
    if same_text(name, "SYS_ADMIN") || same_text(name, "ALL") || same_text(name, "NET_ADMIN")
        || same_text(name, "SYS_MODULE") || same_text(name, "SYS_PTRACE") {
        RiskLevel::High
    } else if same_text(name, "SYS_TIME") || same_text(name, "MKNOD") || same_text(name, "CHOWN")
        || same_text(name, "FOWNER") || same_text(name, "DAC_OVERRIDE") || same_text(
        name,
        "AUDIT_WRITE",
    ) || same_text(name, "KILL") {
        RiskLevel::Medium
    } else {
        RiskLevel::Low
    }
}

impl ValerisPlugin for CapabilitiesPlugin {
    fn id(&self) -> (id: &str)
        ensures
            id@ == "capabilities"@,
    {
        "capabilities"
    }

    fn name(&self) -> (name: &str)
        ensures
            name@ == "Linux Capabilities Checker"@,
    {
        "Linux Capabilities Checker"
    }

    fn target(&self) -> (target: PluginTarget)
        ensures
            target == PluginTarget::Docker,
    {
        PluginTarget::Docker
    }

    fn description(&self) -> (description: &str)
        ensures
            description@ == "Checks for added Linux capabilities in Docker containers, highlighting potentially dangerous ones like SYS_ADMIN or NET_ADMIN."@,
    {
        "Checks for added Linux capabilities in Docker containers, highlighting potentially dangerous ones like SYS_ADMIN or NET_ADMIN."
    }

    fn run(&self, input: &ScanInput) -> (findings: Vec<Finding>)
        ensures
            finding_views(findings@) == capabilities_findings(input.container()),
    {
        let ScanInput::DockerContainer(container) = input;
        let mut findings: Vec<Finding> = Vec::new();
        if let Some(capabilities) = &container.cap_add {
            let mut i: usize = 0;
            while i < capabilities.len()
                invariant
                    i <= capabilities.len(),
                    findings@.len() == i,
                    forall|j: int|
                        0 <= j < i ==> (#[trigger] findings@[j])@ == capability_finding(
                            capabilities@[j]@,
                        ),
                decreases capabilities.len() - i,
            {
                let cap = capabilities[i].as_str();
                let upper = cap.to_uppercase();
                let risk = risk_of_capability(upper.as_str());
                let mut out = chars_of("Capability '");
                push_str_chars(&mut out, cap);
                push_str_chars(&mut out, "' added");
                findings.push(new_finding("Capabilities", string_of(&out), risk));
                i += 1;
            }
            assert(finding_views(findings@) =~= capabilities_findings(*container));
        } else {
            assert(finding_views(findings@) =~= capabilities_findings(*container));
        }
        findings
    }
}

/// The finding for one security option, with a high risk where the option
/// switches a protection off.
pub open spec fn security_opt_finding(option: Seq<char>) -> FindingView {
    plugin_finding(
        "Security Option"@,
        "Security option: "@ + option,
        if contains_text(option, "unconfined"@) {
            RiskLevel::High
        } else {
            RiskLevel::Informative
        },
    )
}

/// Every security option of a container gives one finding.
pub open spec fn security_opt_findings(c: ContainerInfo) -> Seq<FindingView> {
    match c.security_opt {
        Some(options) => Seq::new(options@.len(), |i: int| security_opt_finding(options@[i]@)),
        None => Seq::empty(),
    }
}

impl ValerisPlugin for SecurityOptPlugin {
    fn id(&self) -> (id: &str)
        ensures
            id@ == "security_options"@,
    {
        "security_options"
    }

    fn name(&self) -> (name: &str)
        ensures
            name@ == "Security Options Analyzer"@,
    {
        "Security Options Analyzer"
    }

    fn target(&self) -> (target: PluginTarget)
        ensures
            target == PluginTarget::Docker,
    {
        PluginTarget::Docker
    }

    fn description(&self) -> (description: &str)
        ensures
            description@ == "Analyzes Docker container security options, highlighting dangerous configurations like 'unconfined' AppArmor or seccomp profiles."@,
    {
        "Analyzes Docker container security options, highlighting dangerous configurations like 'unconfined' AppArmor or seccomp profiles."
    }

    fn run(&self, input: &ScanInput) -> (findings: Vec<Finding>)
        ensures
            finding_views(findings@) == security_opt_findings(input.container()),
    {
        let ScanInput::DockerContainer(container) = input;
        let mut findings: Vec<Finding> = Vec::new();
        if let Some(options) = &container.security_opt {
            let mut i: usize = 0;
            while i < options.len()
                invariant
                    i <= options.len(),
                    findings@.len() == i,
                    forall|j: int|
                        0 <= j < i ==> (#[trigger] findings@[j])@ == security_opt_finding(
                            options@[j]@,
                        ),
                decreases options.len() - i,
            {
                let opt = options[i].as_str();
                let risk = if contains_str(opt, "unconfined") {
                    RiskLevel::High
                } else {
                    RiskLevel::Informative
                };
                let mut out = chars_of("Security option: ");
                push_str_chars(&mut out, opt);
                findings.push(new_finding("Security Option", string_of(&out), risk));
                i += 1;
            }
            assert(finding_views(findings@) =~= security_opt_findings(*container));
        } else {
            assert(finding_views(findings@) =~= security_opt_findings(*container));
        }
        findings
    }
}

/// The key under which a binding is counted once: the port and the host port.
pub open spec fn binding_key(port: Seq<char>, binding: PortBinding) -> Seq<char> {
    port + ":"@ + text_or_empty(binding.host_port)
}

/// The finding for a binding of a port to the host, with a high risk where
/// it is bound to all the addresses of the host.
pub open spec fn binding_finding(port: Seq<char>, binding: PortBinding) -> FindingView {
    plugin_finding(
        "Port"@,
        "Exposed port: "@ + port + " \u{2192} "@ + text_or_empty(binding.host_ip) + ":"@
            + text_or_empty(binding.host_port),
        if text_or_empty(binding.host_ip) == "0.0.0.0"@ || text_or_empty(binding.host_ip) == "::"@ {
            RiskLevel::High
        } else {
            RiskLevel::Medium
        },
    )
}

/// The finding for a port without bindings.
pub open spec fn internal_finding(port: Seq<char>) -> FindingView {
    plugin_finding("Port"@, "Port "@ + port + " exposed internally"@, RiskLevel::Informative)
}

/// The findings on ports so far, and the keys of the bindings seen so far.
pub ghost struct PortState {
    pub findings: Seq<FindingView>,
    pub seen: Set<Seq<char>>,
}

/// The state after the bindings of one port: each binding whose key was not
/// seen before gives a finding.
pub open spec fn after_bindings(state: PortState, port: Seq<char>, bindings: Seq<PortBinding>) -> PortState
    decreases bindings.len(),
{
    if bindings.len() == 0 {
        state
    } else {
        let before = after_bindings(state, port, bindings.drop_last());
        let key = binding_key(port, bindings.last());
        if before.seen.contains(key) {
            before
        } else {
            PortState {
                findings: before.findings.push(binding_finding(port, bindings.last())),
                seen: before.seen.insert(key),
            }
        }
    }
}

/// The state after a list of ports: a port without bindings gives a finding,
/// and a port with bindings gives those of its bindings.
pub open spec fn after_ports(ports: Seq<PortMapping>) -> PortState
    decreases ports.len(),
{
    if ports.len() == 0 {
        PortState { findings: Seq::empty(), seen: Set::empty() }
    } else {
        let before = after_ports(ports.drop_last());
        match ports.last().bindings {
            Some(bindings) => after_bindings(before, ports.last().port@, bindings@),
            None => PortState {
                findings: before.findings.push(internal_finding(ports.last().port@)),
                seen: before.seen,
            },
        }
    }
}

/// The findings on the exposed ports of a container. Bindings of one port to
/// one host port give one finding.
pub open spec fn port_findings(c: ContainerInfo) -> Seq<FindingView> {
    match c.ports {
        Some(ports) => after_ports(ports@).findings,
        None => Seq::empty(),
    }
}

impl ValerisPlugin for PortPlugin {
    fn id(&self) -> (id: &str)
        ensures
            id@ == "exposed_ports"@,
    {
        "exposed_ports"
    }

    fn name(&self) -> (name: &str)
        ensures
            name@ == "Exposed Ports Analyzer"@,
    {
        "Exposed Ports Analyzer"
    }

    fn target(&self) -> (target: PluginTarget)
        ensures
            target == PluginTarget::Docker,
    {
        PluginTarget::Docker
    }

    fn description(&self) -> (description: &str)
        ensures
            description@ == "Identifies exposed ports in Docker containers and highlights those bound to all interfaces (0.0.0.0 or ::), which can pose external attack risks."@,
    {
        "Identifies exposed ports in Docker containers and highlights those bound to all interfaces (0.0.0.0 or ::), which can pose external attack risks."
    }

    fn run(&self, input: &ScanInput) -> (findings: Vec<Finding>)
        ensures
            finding_views(findings@) == port_findings(input.container()),
    {
        let ScanInput::DockerContainer(container) = input;
        let mut findings: Vec<Finding> = Vec::new();
        assert(finding_views(findings@) =~= Seq::<FindingView>::empty());
        if let Some(ports) = &container.ports {
            let mut seen = crate::idset::IdSet::new();
            let mut p: usize = 0;
            assert(ports@.take(0) =~= Seq::<PortMapping>::empty());
            while p < ports.len()
                invariant
                    p <= ports.len(),
                    finding_views(findings@) == after_ports(ports@.take(p as int)).findings,
                    seen@ == after_ports(ports@.take(p as int)).seen,
                decreases ports.len() - p,
            {
                let mapping = &ports[p];
                let port = mapping.port.as_str();
                let ghost before = after_ports(ports@.take(p as int));
                proof {
                    assert(ports@.take(p + 1).drop_last() =~= ports@.take(p as int));
                    assert(ports@.take(p + 1).last() == *mapping);
                }
                match &mapping.bindings {
                    Some(bindings) => {
                        let mut b: usize = 0;
                        assert(bindings@.take(0) =~= Seq::<PortBinding>::empty());
                        while b < bindings.len()
                            invariant
                                b <= bindings.len(),
                                port@ == mapping.port@,
                                finding_views(findings@) == after_bindings(
                                    before,
                                    port@,
                                    bindings@.take(b as int),
                                ).findings,
                                seen@ == after_bindings(before, port@, bindings@.take(b as int)).seen,
                            decreases bindings.len() - b,
                        {
                            proof {
                                assert(bindings@.take(b + 1).drop_last() =~= bindings@.take(b as int));
                                assert(bindings@.take(b + 1).last() == bindings@[b as int]);
                            }
                            let host_port = text_or_default(&bindings[b].host_port);
                            let mut key = chars_of(port);
                            push_str_chars(&mut key, ":");
                            push_str_chars(&mut key, host_port.as_str());
                            let key = string_of(&key);
                            if seen.insert(key) {
                                let host_ip = text_or_default(&bindings[b].host_ip);
                                let risk = if same_text(host_ip.as_str(), "0.0.0.0") || same_text(
                                    host_ip.as_str(),
                                    "::",
                                ) {
                                    RiskLevel::High
                                } else {
                                    RiskLevel::Medium
                                };
                                let mut out = chars_of("Exposed port: ");
                                push_str_chars(&mut out, port);
                                push_str_chars(&mut out, " \u{2192} ");
                                push_str_chars(&mut out, host_ip.as_str());
                                push_str_chars(&mut out, ":");
                                push_str_chars(&mut out, host_port.as_str());
                                let ghost so_far = findings@;
                                let finding = new_finding("Port", string_of(&out), risk);
                                findings.push(finding);
                                assert(finding_views(findings@) =~= finding_views(so_far).push(
                                    binding_finding(port@, bindings@[b as int]),
                                ));
                            }
                            b += 1;
                        }
                        assert(bindings@.take(bindings@.len() as int) =~= bindings@);
                    },
                    None => {
                        let mut out = chars_of("Port ");
                        push_str_chars(&mut out, port);
                        push_str_chars(&mut out, " exposed internally");
                        let ghost so_far = findings@;
                        findings.push(new_finding("Port", string_of(&out), RiskLevel::Informative));
                        assert(finding_views(findings@) =~= finding_views(so_far).push(
                            internal_finding(port@),
                        ));
                    },
                }
                p += 1;
            }
            assert(ports@.take(ports@.len() as int) =~= ports@);
        }
        findings
    }
}

} // verus!
