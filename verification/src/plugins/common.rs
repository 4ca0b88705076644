//! The checks for every platform.

use crate::docker::model::{
    finding_views,
    ContainerInfo,
    Finding,
    FindingView,
    RestartPolicyName,
    RiskLevel,
};
use crate::plugins::{
    finding_if,
    new_finding,
    plugin_finding,
    Plugin,
    PluginTarget,
    ScanInput,
    ValerisPlugin,
};
use crate::text::{
    chars_of,
    contains_str,
    contains_text,
    push_str_chars,
    string_of,
    uppercase_of,
};
use vstd::prelude::*;

verus! {

/// The check that reports the restart policy of a container.
pub struct RestartPolicyPlugin;

/// The check for secrets in the environment of a container.
pub struct SecretsPlugin;

/// The checks for every platform, in the order in which they are run.
pub open spec fn common_plugins() -> Seq<Plugin> {
    seq![Plugin::RestartPolicy, Plugin::Secrets]
}

/// The checks for every platform.
pub fn get_common_plugins() -> (plugins: Vec<Plugin>)
    ensures
        plugins@ == common_plugins(),
{
    let mut plugins: Vec<Plugin> = Vec::new();
    plugins.push(Plugin::RestartPolicy);
    plugins.push(Plugin::Secrets);
    assert(plugins@ =~= common_plugins());
    plugins
}

/// The restart policy of a container gives one finding, whatever it is.
pub open spec fn restart_policy_findings(c: ContainerInfo) -> Seq<FindingView> {
    seq![
        match c.restart_policy {
            Some(RestartPolicyName::Always) => plugin_finding(
                "RestartPolicy"@,
                "Restart policy is set to 'always' (recommended for production)"@,
                RiskLevel::Low,
            ),
            Some(RestartPolicyName::OnFailure) => plugin_finding(
                "RestartPolicy"@,
                "Restart policy is set to 'on-failure'"@,
                RiskLevel::Informative,
            ),
            Some(RestartPolicyName::UnlessStopped) => plugin_finding(
                "RestartPolicy"@,
                "Restart policy is set to 'unless-stopped'"@,
                RiskLevel::Informative,
            ),
            Some(RestartPolicyName::No) => plugin_finding(
                "RestartPolicy"@,
                "Restart policy is set to 'no' \u{2014} container won't auto-restart"@,
                RiskLevel::Informative,
            ),
            Some(RestartPolicyName::Empty) => plugin_finding(
                "RestartPolicy"@,
                "Unusual restart policy: 'EMPTY'"@,
                RiskLevel::Medium,
            ),
            None => plugin_finding(
                "RestartPolicy"@,
                "No restart policy defined \u{2014} container won't auto-recover"@,
                RiskLevel::Medium,
            ),
        },
    ]
}

impl ValerisPlugin for RestartPolicyPlugin {
    fn id(&self) -> (id: &str)
        ensures
            id@ == "restart_policy"@,
    {
        "restart_policy"
    }

    fn name(&self) -> (name: &str)
        ensures
            name@ == "Restart Policy Checker"@,
    {
        "Restart Policy Checker"
    }

    fn target(&self) -> (target: PluginTarget)
        ensures
            target == PluginTarget::Both,
    {
        PluginTarget::Both
    }

    fn description(&self) -> (description: &str)
        ensures
            description@ == "Checks the Docker container's restart policy configuration to assess resilience and identify missing or unusual settings."@,
    {
        "Checks the Docker container's restart policy configuration to assess resilience and identify missing or unusual settings."
    }

    fn run(&self, input: &ScanInput) -> (findings: Vec<Finding>)
        ensures
            finding_views(findings@) == restart_policy_findings(input.container()),
    {
        let ScanInput::DockerContainer(container) = input;
        match container.restart_policy {
            Some(RestartPolicyName::Always) => finding_if(
                true,
                "RestartPolicy",
                "Restart policy is set to 'always' (recommended for production)",
                RiskLevel::Low,
            ),
            Some(RestartPolicyName::OnFailure) => finding_if(
                true,
                "RestartPolicy",
                "Restart policy is set to 'on-failure'",
                RiskLevel::Informative,
            ),
            Some(RestartPolicyName::UnlessStopped) => finding_if(
                true,
                "RestartPolicy",
                "Restart policy is set to 'unless-stopped'",
                RiskLevel::Informative,
            ),
            Some(RestartPolicyName::No) => finding_if(
                true,
                "RestartPolicy",
                "Restart policy is set to 'no' \u{2014} container won't auto-restart",
                RiskLevel::Informative,
            ),
            Some(RestartPolicyName::Empty) => finding_if(
                true,
                "RestartPolicy",
                "Unusual restart policy: 'EMPTY'",
                RiskLevel::Medium,
            ),
            None => finding_if(
                true,
                "RestartPolicy",
                "No restart policy defined \u{2014} container won't auto-recover",
                RiskLevel::Medium,
            ),
        }
    }
}

/// Whether the name of a variable, in upper case, tells that its value is a
/// secret.
pub open spec fn sensitive_key(key: Seq<char>) -> bool {
    contains_text(key, "PASSWORD"@) || contains_text(key, "SECRET"@) || contains_text(key, "TOKEN"@)
        || contains_text(key, "API_KEY"@) || contains_text(key, "ACCESS_KEY"@) || contains_text(
        key,
        "PRIVATE_KEY"@,
    ) || contains_text(key, "DB_PASSWORD"@) || contains_text(key, "DB_PASS"@) || contains_text(
        key,
        "DB_USER"@,
    ) || contains_text(key, "AWS_ACCESS_KEY_ID"@) || contains_text(key, "AWS_SECRET_ACCESS_KEY"@)
        || contains_text(key, "GCP_KEY"@) || contains_text(key, "JWT_SECRET"@)
}

/// Whether the name of a variable, in upper case, tells that its value is a
/// secret.
pub fn is_sensitive_key(key: &str) -> (b: bool)
    ensures
        b == sensitive_key(key@),
{
    contains_str(key, "PASSWORD") || contains_str(key, "SECRET") || contains_str(key, "TOKEN")
        || contains_str(key, "API_KEY") || contains_str(key, "ACCESS_KEY") || contains_str(
        key,
        "PRIVATE_KEY",
    ) || contains_str(key, "DB_PASSWORD") || contains_str(key, "DB_PASS") || contains_str(
        key,
        "DB_USER",
    ) || contains_str(key, "AWS_ACCESS_KEY_ID") || contains_str(key, "AWS_SECRET_ACCESS_KEY")
        || contains_str(key, "GCP_KEY") || contains_str(key, "JWT_SECRET")
}

/// The position of the first `=` of `entry`, if it has one.
pub open spec fn first_equals(entry: Seq<char>) -> Option<int>
    decreases entry.len(),
{
    if entry.len() == 0 {
        None
    } else if first_equals(entry.drop_last()) is Some {
        first_equals(entry.drop_last())
    } else if entry.last() == '=' {
        Some(entry.len() - 1)
    } else {
        None
    }
}

/// The finding for one entry of the environment, if it gives one: the entry
/// has the form `KEY=value`, and the key in upper case is sensitive.
pub open spec fn secret_finding(entry: Seq<char>) -> Option<FindingView> {
    match first_equals(entry) {
        Some(at) => if sensitive_key(uppercase_of(entry.take(at))) {
            Some(
                plugin_finding(
                    "Environment"@,
                    "Sensitive variable detected: "@ + entry.take(at) + " = "@ + entry.skip(at + 1),
                    RiskLevel::High,
                ),
            )
        } else {
            None
        },
        None => None,
    }
}

/// The findings for the entries of an environment, in order.
pub open spec fn secrets_in(entries: Seq<String>) -> Seq<FindingView>
    decreases entries.len(),
{
    if entries.len() == 0 {
        Seq::empty()
    } else {
        match secret_finding(entries.last()@) {
            Some(finding) => secrets_in(entries.drop_last()).push(finding),
            None => secrets_in(entries.drop_last()),
        }
    }
}

/// Every variable of the environment whose name is sensitive gives one
/// finding.
pub open spec fn secrets_findings(c: ContainerInfo) -> Seq<FindingView> {
    match c.env {
        Some(entries) => secrets_in(entries@),
        None => Seq::empty(),
    }
}

/// The finding for one entry of the environment, if it gives one.
fn check_entry(entry: &str) -> (found: Option<Finding>)
    ensures
        match found {
            Some(finding) => secret_finding(entry@) == Some(finding@),
            None => secret_finding(entry@) is None,
        },
{
    let v = chars_of(entry);
    let mut at: usize = 0;
    assert(v@.take(0) =~= Seq::<char>::empty());
    while at < v.len() && v[at] != '='
        invariant
            at <= v.len(),
            first_equals(v@.take(at as int)) is None,
        decreases v.len() - at,
    {
        proof {
            assert(v@.take(at + 1).drop_last() =~= v@.take(at as int));
        }
        at += 1;
    }
    if at == v.len() {
        assert(v@.take(at as int) =~= v@);
        return None;
    }
    proof {
        assert(v@.take(at + 1).drop_last() =~= v@.take(at as int));
        assert(first_equals(v@.take(at + 1)) == Some(at as int));
        lemma_first_equals_prefix(v@, at + 1);
    }
    let mut key: Vec<char> = Vec::new();
    let mut i: usize = 0;
    while i < at
        invariant
            i <= at <= v.len(),
            key@ == v@.take(i as int),
        decreases at - i,
    {
        key.push(v[i]);
        assert(v@.take(i as int).push(v@[i as int]) =~= v@.take(i + 1));
        i += 1;
    }
    let key = string_of(&key);
    let upper = key.as_str().to_uppercase();
    if !is_sensitive_key(upper.as_str()) {
        return None;
    }
    let mut out = chars_of("Sensitive variable detected: ");
    push_str_chars(&mut out, key.as_str());
    push_str_chars(&mut out, " = ");
    let ghost before = out@;
    let mut k: usize = at + 1;
    while k < v.len()
        invariant
            at < k <= v.len(),
            out@ == before + v@.subrange(at + 1, k as int),
        decreases v.len() - k,
    {
        out.push(v[k]);
        k += 1;
    }
    assert(v@.subrange(at + 1, v@.len() as int) =~= v@.skip(at + 1));
    Some(new_finding("Environment", string_of(&out), RiskLevel::High))
}

/// The first `=` of a prefix is the first `=` of the whole text.
proof fn lemma_first_equals_prefix(entry: Seq<char>, n: int)
    requires
        0 <= n <= entry.len(),
        first_equals(entry.take(n)) is Some,
    ensures
        first_equals(entry) == first_equals(entry.take(n)),
    decreases entry.len() - n,
{
    if n < entry.len() {
        assert(entry.take(n + 1).drop_last() =~= entry.take(n));
        lemma_first_equals_prefix(entry, n + 1);
    } else {
        assert(entry.take(n) =~= entry);
    }
}

impl ValerisPlugin for SecretsPlugin {
    fn id(&self) -> (id: &str)
        ensures
            id@ == "secrets_in_env"@,
    {
        "secrets_in_env"
    }

    fn name(&self) -> (name: &str)
        ensures
            name@ == "Sensitive Environment Variables Checker"@,
    {
        "Sensitive Environment Variables Checker"
    }

    fn target(&self) -> (target: PluginTarget)
        ensures
            target == PluginTarget::Both,
    {
        PluginTarget::Both
    }

    fn description(&self) -> (description: &str)
        ensures
            description@ == "Scans container environment variables for hardcoded secrets such as passwords, tokens, or API keys, which pose a serious security risk."@,
    {
        "Scans container environment variables for hardcoded secrets such as passwords, tokens, or API keys, which pose a serious security risk."
    }

    fn run(&self, input: &ScanInput) -> (findings: Vec<Finding>)
        ensures
            finding_views(findings@) == secrets_findings(input.container()),
    {
        let ScanInput::DockerContainer(container) = input;
        let mut findings: Vec<Finding> = Vec::new();
        assert(finding_views(findings@) =~= Seq::<FindingView>::empty());
        if let Some(entries) = &container.env {
            let mut i: usize = 0;
            assert(entries@.take(0) =~= Seq::<String>::empty());
            while i < entries.len()
                invariant
                    i <= entries.len(),
                    finding_views(findings@) == secrets_in(entries@.take(i as int)),
                decreases entries.len() - i,
            {
                proof {
                    assert(entries@.take(i + 1).drop_last() =~= entries@.take(i as int));
                    assert(entries@.take(i + 1).last() == entries@[i as int]);
                }
                if let Some(finding) = check_entry(entries[i].as_str()) {
                    let ghost so_far = findings@;
                    findings.push(finding);
                    assert(finding_views(findings@) =~= finding_views(so_far).push(finding@));
                }
                i += 1;
            }
            assert(entries@.take(entries@.len() as int) =~= entries@);
        }
        findings
    }
}

} // verus!
