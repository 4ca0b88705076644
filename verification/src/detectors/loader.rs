//! The assembly of a rule catalog from the rule files of a directory.
//!
//! Reading the files and parsing their text is done by the caller. Decided
//! here is which files are rule files, and what the catalog is: the rules of
//! all the files in order, or no catalog at all where one file failed.

use crate::detectors::dockerfile::yaml_rules::{Rule, RuleSet};
use crate::detectors::runtime::yaml_rules::{YamlRule, YamlRuleEngine};
use crate::text::{chars_of, same_text, string_of};
use vstd::prelude::*;

verus! {

/// The position of the last `.` of `name`, if it has one.
pub open spec fn last_dot(name: Seq<char>) -> Option<int>
    decreases name.len(),
{
    if name.len() == 0 {
        None
    } else if name.last() == '.' {
        Some(name.len() - 1)
    } else {
        last_dot(name.drop_last())
    }
}

/// The extension of a file name: what follows its last `.`. A name without
/// `.`, a name whose only `.` is its first character, and the name `..` have
/// no extension.
pub open spec fn extension_of(name: Seq<char>) -> Option<Seq<char>> {
    match last_dot(name) {
        Some(at) => if at == 0 || name == ".."@ {
            None
        } else {
            Some(name.skip(at + 1))
        },
        None => None,
    }
}

/// Whether a file of the runtime dialect's directory holds a rule: its
/// extension is `yaml`.
pub open spec fn runtime_rule_file(name: Seq<char>) -> bool {
    extension_of(name) == Some("yaml"@)
}

/// Whether a file of the Dockerfile dialect's directory holds rules: its
/// extension is `yml` or `yaml`.
pub open spec fn dockerfile_rule_file(name: Seq<char>) -> bool {
    extension_of(name) == Some("yml"@) || extension_of(name) == Some("yaml"@)
}

/// The extension of a file name.
pub fn extension(name: &str) -> (ext: Option<String>)
    ensures
        match ext {
            Some(e) => extension_of(name@) == Some(e@),
            None => extension_of(name@) is None,
        },
{
    let v = chars_of(name);
    let mut i: usize = v.len();
    assert(v@.take(i as int) =~= v@);
    while i > 0 && v[i - 1] != '.'
        invariant
            i <= v.len(),
            last_dot(v@) == last_dot(v@.take(i as int)),
        decreases i,
    {
        proof {
            assert(v@.take(i as int).drop_last() =~= v@.take(i - 1));
        }
        i -= 1;
    }
    if i == 0 {
        return None;
    }
    let at = i - 1;
    if at == 0 || same_text(name, "..") {
        return None;
    }
    let mut out: Vec<char> = Vec::new();
    let mut k: usize = i;
    while k < v.len()
        invariant
            i <= k <= v.len(),
            out@ == v@.subrange(i as int, k as int),
        decreases v.len() - k,
    {
        out.push(v[k]);
        k += 1;
    }
    assert(out@ =~= v@.skip(at + 1));
    Some(string_of(&out))
}

/// Whether a file of the runtime dialect's directory holds a rule.
pub fn is_runtime_rule_file(name: &str) -> (b: bool)
    ensures
        b == runtime_rule_file(name@),
{
    match extension(name) {
        Some(ext) => same_text(ext.as_str(), "yaml"),
        None => false,
    }
}

/// Whether a file of the Dockerfile dialect's directory holds rules.
pub fn is_dockerfile_rule_file(name: &str) -> (b: bool)
    ensures
        b == dockerfile_rule_file(name@),
{
    match extension(name) {
        Some(ext) => same_text(ext.as_str(), "yml") || same_text(ext.as_str(), "yaml"),
        None => false,
    }
}

/// The failure of a load: the file that could not be read or parsed, and why.
#[derive(Debug)]
pub struct LoadError {
    pub path: String,
    pub reason: String,
}

/// One rule file: its path, and the rules that were parsed from it or the
/// reason why it could not be read or parsed.
#[derive(Debug)]
pub struct RuleFile<T> {
    pub path: String,
    pub content: Result<T, String>,
}

/// The position of the first file that failed, if one did.
pub open spec fn first_failure<T>(files: Seq<RuleFile<T>>) -> Option<int>
    decreases files.len(),
{
    if files.len() == 0 {
        None
    } else if first_failure(files.drop_last()) is Some {
        first_failure(files.drop_last())
    } else if files.last().content is Err {
        Some(files.len() - 1)
    } else {
        None
    }
}

/// The rules of the files that were parsed, file by file.
pub open spec fn all_rules(files: Seq<RuleFile<RuleSet>>) -> Seq<Rule>
    decreases files.len(),
{
    if files.len() == 0 {
        Seq::empty()
    } else {
        match files.last().content {
            Ok(set) => all_rules(files.drop_last()) + set.rules@,
            Err(_) => all_rules(files.drop_last()),
        }
    }
}

/// The rules of the files that were parsed, one for each file.
pub open spec fn each_rule(files: Seq<RuleFile<YamlRule>>) -> Seq<YamlRule>
    decreases files.len(),
{
    if files.len() == 0 {
        Seq::empty()
    } else {
        match files.last().content {
            Ok(rule) => each_rule(files.drop_last()).push(rule),
            Err(_) => each_rule(files.drop_last()),
        }
    }
}

/// Whether `error` is the failure of the file at position `at`.
pub open spec fn failure_of<T>(error: LoadError, files: Seq<RuleFile<T>>, at: int) -> bool {
    &&& 0 <= at < files.len()
    &&& error.path@ == files[at].path@
    &&& files[at].content matches Err(reason) && error.reason@ == reason@
}

/// The catalog of the Dockerfile dialect for the rule files of a directory:
/// the rules of all the files in order, under version 1. Where a file failed there is no catalog, and the
/// error is that of the first file that failed.
pub fn load_rules_from_dir(files: Vec<RuleFile<RuleSet>>) -> (r: Result<RuleSet, LoadError>)
    ensures
        match r {
            Ok(set) => first_failure(files@) is None && set.version == 1 && set.rules@ == all_rules(
                files@,
            ),
            Err(e) => first_failure(files@) matches Some(at) && failure_of(e, files@, at),
        },
{
    let mut rules: Vec<Rule> = Vec::new();
    let ghost all = files@;
    assert(all.take(0) =~= Seq::<RuleFile<RuleSet>>::empty());
    for file in it: files
        invariant
            it.seq() == all,
            first_failure(all.take(it.index() as int)) is None,
            rules@ == all_rules(all.take(it.index() as int)),
    {
        proof {
            assert(all.take(it.index() + 1).drop_last() =~= all.take(it.index() as int));
            assert(all.take(it.index() + 1).last() == file);
        }
        match file.content {
            Ok(set) => {
                let mut more = set.rules;
                rules.append(&mut more);
            },
            Err(reason) => {
                proof {
                    lemma_first_failure_prefix(all, it.index() + 1);
                }
                return Err(LoadError { path: file.path, reason });
            },
        }
    }
    assert(all.take(all.len() as int) =~= all);
    Ok(RuleSet { version: 1, rules })
}

/// The failure of a prefix is the failure of the whole list.
pub proof fn lemma_first_failure_prefix<T>(files: Seq<RuleFile<T>>, n: int)
    requires
        0 <= n <= files.len(),
        first_failure(files.take(n)) is Some,
    ensures
        first_failure(files) == first_failure(files.take(n)),
    decreases files.len() - n,
{
    if n < files.len() {
        assert(files.take(n + 1).drop_last() =~= files.take(n));
        lemma_first_failure_prefix(files, n + 1);
    } else {
        assert(files.take(n) =~= files);
    }
}

impl YamlRuleEngine {
    /// The engine of the runtime dialect for the rule files of a directory:
    /// one rule from each file, in order. Where a file failed there is no
    /// engine, and the error is that of the first file that failed. A
    /// directory without rule files gives an engine without rules.
    pub fn from_dir(files: Vec<RuleFile<YamlRule>>) -> (r: Result<YamlRuleEngine, LoadError>)
        ensures
            match r {
                Ok(engine) => first_failure(files@) is None && engine@ == each_rule(files@),
                Err(e) => first_failure(files@) matches Some(at) && failure_of(e, files@, at),
            },
    {
        let mut rules: Vec<YamlRule> = Vec::new();
        let ghost all = files@;
        assert(all.take(0) =~= Seq::<RuleFile<YamlRule>>::empty());
        for file in it: files
            invariant
                it.seq() == all,
                first_failure(all.take(it.index() as int)) is None,
                rules@ == each_rule(all.take(it.index() as int)),
        {
            proof {
                assert(all.take(it.index() + 1).drop_last() =~= all.take(it.index() as int));
                assert(all.take(it.index() + 1).last() == file);
            }
            match file.content {
                Ok(rule) => {
                    rules.push(rule);
                },
                Err(reason) => {
                    proof {
                        lemma_first_failure_prefix(all, it.index() + 1);
                    }
                    return Err(LoadError { path: file.path, reason });
                },
            }
        }
        assert(all.take(all.len() as int) =~= all);
        Ok(YamlRuleEngine::new(rules))
    }
}

} // verus!
