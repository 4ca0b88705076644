//! The record that a matching rule produces, and the scale its severity is
//! measured on.

use vstd::prelude::*;

verus! {

/// How serious a finding is. The variants are listed in increasing order.
#[derive(Debug, Clone, Copy, PartialEq, Eq, PartialOrd, Ord, Hash, Structural)]
pub enum RiskLevel {
    Informative,
    Low,
    Medium,
    High,
}

impl RiskLevel {
    /// Position of the level on the scale, from 0 for `Informative` to 3 for `High`.
    pub open spec fn rank(self) -> nat {
        match self {
            RiskLevel::Informative => 0,
            RiskLevel::Low => 1,
            RiskLevel::Medium => 2,
            RiskLevel::High => 3,
        }
    }

    /// `self >= other` on the scale.
    pub open spec fn spec_at_least(self, other: RiskLevel) -> bool {
        self.rank() >= other.rank()
    }

    /// The rank as a machine integer.
    pub fn ordinal(self) -> (r: u8)
        ensures
            r as nat == self.rank(),
    {
        match self {
            RiskLevel::Informative => 0,
            RiskLevel::Low => 1,
            RiskLevel::Medium => 2,
            RiskLevel::High => 3,
        }
    }

    /// Whether the level is `other` or a more serious one.
    #[verifier::when_used_as_spec(spec_at_least)]
    pub fn at_least(self, other: RiskLevel) -> (b: bool)
        ensures
            b == self.spec_at_least(other),
    {
        self.ordinal() >= other.ordinal()
    }
}


/// The scale is a total order: of two levels one is at least the other, a
/// level is at least itself, two levels that are each at least the other are
/// the same, and "at least" carries over a level in between.
pub proof fn lemma_risk_order(a: RiskLevel, b: RiskLevel, c: RiskLevel)
    ensures
        a.spec_at_least(b) || b.spec_at_least(a),
        a.spec_at_least(a),
        a.spec_at_least(b) && b.spec_at_least(a) ==> a == b,
        a.spec_at_least(b) && b.spec_at_least(c) ==> a.spec_at_least(c),
        RiskLevel::High.spec_at_least(a),
        a.spec_at_least(RiskLevel::Informative),
{
}

/// One violation that a rule found.
///
/// `kind` is the id of the rule, `description` says what was found, `risk` is
/// the rule's severity, and `line` is the line of a Dockerfile that the finding
/// is about, where there is one.
#[derive(Debug)]
pub struct Finding {
    pub kind: String,
    pub description: String,
    pub risk: RiskLevel,
    pub line: Option<usize>,
}

/// A finding as a mathematical value: its strings are sequences of characters.
pub ghost struct FindingView {
    pub kind: Seq<char>,
    pub description: Seq<char>,
    pub risk: RiskLevel,
    pub line: Option<usize>,
}

impl View for Finding {
    type V = FindingView;

    open spec fn view(&self) -> FindingView {
        FindingView {
            kind: self.kind@,
            description: self.description@,
            risk: self.risk,
            line: self.line,
        }
    }
}

impl Clone for Finding {
    fn clone(&self) -> (r: Self)
        ensures
            r == *self,
    {
        Finding {
            kind: self.kind.clone(),
            description: self.description.clone(),
            risk: self.risk,
            line: self.line,
        }
    }
}

impl PartialEq for Finding {
    /// Two findings are equal where all four fields are.
    fn eq(&self, other: &Finding) -> (r: bool) {
        let same_line = match (self.line, other.line) {
            (Some(a), Some(b)) => a == b,
            (None, None) => true,
            _ => false,
        };
        self.kind == other.kind && self.description == other.description && self.risk
            == other.risk && same_line
    }
}

impl vstd::std_specs::cmp::PartialEqSpecImpl for Finding {
    open spec fn obeys_eq_spec() -> bool {
        true
    }

    open spec fn eq_spec(&self, other: &Finding) -> bool {
        self@ == other@
    }
}

impl Eq for Finding {

}

/// The views of the findings of `findings`, in order.
pub open spec fn finding_views(findings: Seq<Finding>) -> Seq<FindingView> {
    findings.map_values(|f: Finding| f@)
}

/// One host path mounted into a container.
#[derive(Debug, Default)]
pub struct Mount {
    pub source: Option<String>,
    pub destination: Option<String>,
}

/// One binding of a container port to the host.
#[derive(Debug, Default)]
pub struct PortBinding {
    pub host_ip: Option<String>,
    pub host_port: Option<String>,
}

/// One exposed port of a container, such as `80/tcp`, with its bindings to
/// the host. A port without bindings is exposed inside the container's
/// networks only.
#[derive(Debug, Default)]
pub struct PortMapping {
    pub port: String,
    pub bindings: Option<Vec<PortBinding>>,
}

/// One resource limit of a container.
#[derive(Debug, Default)]
pub struct Ulimit {
    pub name: Option<String>,
    pub soft: Option<i64>,
    pub hard: Option<i64>,
}

/// The restart policies of the Docker daemon.
#[derive(Debug, Clone, Copy, PartialEq, Eq, Structural)]
pub enum RestartPolicyName {
    /// The policy with the empty name.
    Empty,
    No,
    Always,
    UnlessStopped,
    OnFailure,
}

/// An inspected container: what the daemon reports of it, as far as the
/// scanner reads it. A field is `None` where the daemon reports nothing.
#[derive(Debug, Default)]
pub struct ContainerInfo {
    /// The id of the container.
    pub id: Option<String>,
    /// The name of the container, as the daemon gives it: with `/` in front.
    pub name: Option<String>,
    /// The image of the container.
    pub image: Option<String>,
    /// The state of the container.
    pub state: Option<String>,
    /// The user that the container runs as.
    pub user: Option<String>,
    /// The environment of the container, each entry as `KEY=value`.
    pub env: Option<Vec<String>>,
    pub network_mode: Option<String>,
    pub pid_mode: Option<String>,
    pub ipc_mode: Option<String>,
    pub uts_mode: Option<String>,
    pub userns_mode: Option<String>,
    pub privileged: Option<bool>,
    pub readonly_rootfs: Option<bool>,
    /// The Linux capabilities added to the container.
    pub cap_add: Option<Vec<String>>,
    pub security_opt: Option<Vec<String>>,
    /// The memory limit in bytes.
    pub memory: Option<i64>,
    pub nano_cpus: Option<i64>,
    pub cpu_shares: Option<i64>,
    pub pids_limit: Option<i64>,
    pub ulimits: Option<Vec<Ulimit>>,
    /// The name of the restart policy.
    pub restart_policy: Option<RestartPolicyName>,
    pub mounts: Option<Vec<Mount>>,
    /// The exposed ports, in the order in which the daemon reports them.
    pub ports: Option<Vec<PortMapping>>,
}

/// The findings on one container.
#[derive(Debug)]
pub struct ContainerResult {
    pub container: ContainerInfo,
    pub findings: Vec<Finding>,
}

} // verus!
