//! A plain listing of the mounts of a container.

use crate::docker::model::{ContainerInfo, Mount};
use crate::plugins::docker::text_or_empty;
use crate::text::{
    chars_of,
    lemma_views_push,
    occurs_at,
    push_str_chars,
    starts_with_str,
    string_of,
    views,
};
use vstd::prelude::*;

verus! {

/// The number of places that expose the host.
pub open spec fn dangerous_path_count() -> nat {
    5
}

/// The places that expose the host, in the order in which a mount is held
/// against them.
pub open spec fn dangerous_path(k: int) -> Seq<char> {
    if k == 0 {
        "/var/run/docker.sock"@
    } else if k == 1 {
        "/proc"@
    } else if k == 2 {
        "/sys"@
    } else if k == 3 {
        "/etc"@
    } else {
        "/root"@
    }
}

/// The line for a mount whose source lies in a place that exposes the host.
pub open spec fn warning_line(mount: Mount) -> Seq<char> {
    "      \u{26a0}\u{fe0f}  "@ + text_or_empty(mount.source) + " \u{2192} "@ + text_or_empty(
        mount.destination,
    )
}

/// The line for any other mount.
pub open spec fn plain_line(mount: Mount) -> Seq<char> {
    "          "@ + text_or_empty(mount.source) + " \u{2192} "@ + text_or_empty(mount.destination)
}

/// The warning lines of a mount for the first `k` places: one for each place
/// that its source lies in.
pub open spec fn warnings(mount: Mount, k: int) -> Seq<Seq<char>>
    decreases k,
{
    if k <= 0 {
        Seq::empty()
    } else if occurs_at(text_or_empty(mount.source), dangerous_path(k - 1), 0) {
        warnings(mount, k - 1).push(warning_line(mount))
    } else {
        warnings(mount, k - 1)
    }
}

/// The lines of a mount: its warning lines or, where it has none, its plain
/// line.
pub open spec fn mount_lines(mount: Mount) -> Seq<Seq<char>> {
    if warnings(mount, dangerous_path_count() as int).len() > 0 {
        warnings(mount, dangerous_path_count() as int)
    } else {
        seq![plain_line(mount)]
    }
}

/// The lines of a list of mounts, mount by mount.
pub open spec fn lines_of(mounts: Seq<Mount>) -> Seq<Seq<char>>
    decreases mounts.len(),
{
    if mounts.len() == 0 {
        Seq::empty()
    } else {
        lines_of(mounts.drop_last()) + mount_lines(mounts.last())
    }
}

/// The lines of the mounts of a container.
pub open spec fn mount_report(container: ContainerInfo) -> Seq<Seq<char>> {
    match container.mounts {
        Some(mounts) => lines_of(mounts@),
        None => Seq::empty(),
    }
}

/// The place at position `k` of the order of the dangerous places.
fn path_at(k: usize) -> (path: &'static str)
    requires
        k < dangerous_path_count(),
    ensures
        path@ == dangerous_path(k as int),
{
    if k == 0 {
        "/var/run/docker.sock"
    } else if k == 1 {
        "/proc"
    } else if k == 2 {
        "/sys"
    } else if k == 3 {
        "/etc"
    } else {
        "/root"
    }
}

/// The line for a mount, after the lead `lead`.
fn line_for(mount: &Mount, lead: &str) -> (line: String)
    ensures
        line@ == lead@ + text_or_empty(mount.source) + " \u{2192} "@ + text_or_empty(
            mount.destination,
        ),
{
    let mut out = chars_of(lead);
    if let Some(source) = &mount.source {
        push_str_chars(&mut out, source.as_str());
    }
    let ghost with_source = out@;
    assert(with_source =~= lead@ + text_or_empty(mount.source));
    push_str_chars(&mut out, " \u{2192} ");
    if let Some(destination) = &mount.destination {
        push_str_chars(&mut out, destination.as_str());
    }
    assert(out@ =~= lead@ + text_or_empty(mount.source) + " \u{2192} "@ + text_or_empty(
        mount.destination,
    ));
    string_of(&out)
}

/// The lines of the mounts of a container: a warning for each dangerous place
/// that a mount's source lies in, and a plain line for a mount without
/// warning.
pub fn analyze_mounts(container: &ContainerInfo) -> (findings: Vec<String>)
    ensures
        views(findings@) == mount_report(*container),
{
    let mut findings: Vec<String> = Vec::new();
    assert(views(findings@) =~= Seq::<Seq<char>>::empty());
    if let Some(mounts) = &container.mounts {
        let mut i: usize = 0;
        assert(mounts@.take(0) =~= Seq::<Mount>::empty());
        while i < mounts.len()
            invariant
                i <= mounts.len(),
                views(findings@) == lines_of(mounts@.take(i as int)),
            decreases mounts.len() - i,
        {
            let mount = &mounts[i];
            proof {
                assert(mounts@.take(i + 1).drop_last() =~= mounts@.take(i as int));
                assert(mounts@.take(i + 1).last() == *mount);
            }
            let ghost before = views(findings@);
            let len_findings = findings.len();
            let source = match &mount.source {
                Some(source) => source.as_str(),
                None => "",
            };
            proof {
                reveal_strlit("");
                assert(source@ =~= text_or_empty(mount.source));
                assert(before + Seq::<Seq<char>>::empty() =~= before);
            }
            let mut k: usize = 0;
            while k < 5
                invariant
                    k <= 5,
                    source@ == text_or_empty(mount.source),
                    len_findings == before.len(),
                    views(findings@) == before + warnings(*mount, k as int),
                decreases 5 - k,
            {
                let ghost so_far = warnings(*mount, k as int);
                if starts_with_str(source, path_at(k)) {
                    let line = line_for(mount, "      \u{26a0}\u{fe0f}  ");
                    proof {
                        lemma_views_push(findings@, line);
                        assert((before + so_far).push(warning_line(*mount)) =~= before
                            + so_far.push(warning_line(*mount)));
                    }
                    findings.push(line);
                }
                k += 1;
            }
            assert(views(findings@).len() == findings@.len());
            if len_findings == findings.len() {
                let line = line_for(mount, "          ");
                proof {
                    lemma_views_push(findings@, line);
                    assert(warnings(*mount, 5).len() == 0);
                    assert(before.push(plain_line(*mount)) =~= before + seq![plain_line(*mount)]);
                }
                findings.push(line);
            }
            i += 1;
        }
        assert(mounts@.take(mounts@.len() as int) =~= mounts@);
    }
    findings
}

} // verus!
