//! The scan of a Dockerfile: three passes over the parsed file, one for each
//! scope of rule, then the selection of findings by severity and the decision
//! whether the scan fails.

use crate::cli::SeverityLevel;
use crate::detectors::dockerfile::context::Context;
use crate::detectors::dockerfile::document::{Dockerfile, Instruction, Stage};
use crate::detectors::dockerfile::instruction_utils::{
    find_last_user_instruction,
    get_instruction_kind,
    get_line_number,
    instruction_fields,
    instruction_kind,
    instruction_to_map,
    last_user,
    line_at,
};
use crate::detectors::dockerfile::matcher::{matcher_holds, matches_matcher};
use crate::detectors::dockerfile::yaml_rules::{Rule, Severity};
use crate::docker::model::{finding_views, Finding, FindingView, RiskLevel};
use crate::idset::IdSet;
use crate::selection::{
    all_known,
    check_selection,
    is_selected_id,
    lemma_unknown_name,
    normalized_ids,
    normalized_set,
    unknown_names,
    UnknownIds,
};
use crate::seqs::kept;
use crate::text::{
    decimal,
    lowercase_of,
    push_decimal,
    push_str_chars,
    same_text,
    string_of,
    views,
};
use vstd::prelude::*;

verus! {

/// The risk that a rule's severity stands for. `High` and `Critical` both
/// stand for `High`.
pub open spec fn risk_of(severity: Severity) -> RiskLevel {
    match severity {
        Severity::Info => RiskLevel::Informative,
        Severity::Low => RiskLevel::Low,
        Severity::Medium => RiskLevel::Medium,
        Severity::High => RiskLevel::High,
        Severity::Critical => RiskLevel::High,
    }
}

/// The risk that a rule's severity stands for.
pub fn severity_to_risk(severity: &Severity) -> (risk: RiskLevel)
    ensures
        risk == risk_of(*severity),
{
    match severity {
        Severity::Info => RiskLevel::Informative,
        Severity::Low => RiskLevel::Low,
        Severity::Medium => RiskLevel::Medium,
        Severity::High | Severity::Critical => RiskLevel::High,
    }
}

/// The id of a rule.
pub fn get_rule_id(rule: &Rule) -> (id: &str)
    ensures
        id@ == rule.spec_id(),
{
    match rule {
        Rule::Instruction { id, .. } => id.as_str(),
        Rule::Stage { id, .. } => id.as_str(),
        Rule::File { id, .. } => id.as_str(),
    }
}

/// The description of a finding about a stage: the stage's index before the
/// rule's message.
pub open spec fn stage_description(stage_index: usize, message: Seq<char>) -> Seq<char> {
    "Stage "@ + decimal(stage_index as nat) + ": "@ + message
}

/// The description of a finding about a stage.
fn describe_stage(stage_index: usize, message: &str) -> (r: String)
    ensures
        r@ == stage_description(stage_index, message@),
{
    let mut out: Vec<char> = Vec::new();
    push_str_chars(&mut out, "Stage ");
    push_decimal(&mut out, stage_index);
    push_str_chars(&mut out, ": ");
    push_str_chars(&mut out, message);
    assert(out@ =~= stage_description(stage_index, message@));
    string_of(&out)
}

/// Whether a rule fires on an instruction: it is an `Instruction` rule, its
/// kind is the instruction's kind, and its matcher holds of the instruction's
/// fields.
pub open spec fn instruction_rule_fires(rule: Rule, ins: Instruction) -> bool {
    match rule {
        Rule::Instruction { kind, matcher, .. } => kind@ == instruction_kind(ins) && matcher_holds(
            matcher,
            instruction_fields(ins),
        ),
        _ => false,
    }
}

/// The finding of a rule that fires on an instruction of stage `stage_index`.
pub open spec fn instruction_finding(
    rule: Rule,
    ins: Instruction,
    stage_index: usize,
    content: Seq<char>,
) -> FindingView {
    FindingView {
        kind: rule.spec_id(),
        description: stage_description(stage_index, rule.spec_message()),
        risk: risk_of(rule.spec_severity()),
        line: line_at(content, ins.offset()),
    }
}

/// The findings of `rules` on one instruction, in the order of the rules.
pub open spec fn instruction_findings(
    rules: Seq<Rule>,
    ins: Instruction,
    stage_index: usize,
    content: Seq<char>,
) -> Seq<FindingView>
    decreases rules.len(),
{
    if rules.len() == 0 {
        Seq::empty()
    } else if instruction_rule_fires(rules.last(), ins) {
        instruction_findings(rules.drop_last(), ins, stage_index, content).push(
            instruction_finding(rules.last(), ins, stage_index, content),
        )
    } else {
        instruction_findings(rules.drop_last(), ins, stage_index, content)
    }
}

/// The findings of `rules` on the instructions of one stage, instruction by
/// instruction.
pub open spec fn stage_instruction_findings(
    rules: Seq<Rule>,
    instructions: Seq<Instruction>,
    stage_index: usize,
    content: Seq<char>,
) -> Seq<FindingView>
    decreases instructions.len(),
{
    if instructions.len() == 0 {
        Seq::empty()
    } else {
        stage_instruction_findings(rules, instructions.drop_last(), stage_index, content)
            + instruction_findings(rules, instructions.last(), stage_index, content)
    }
}

/// The findings of the instruction pass: those of `rules` on every instruction
/// of every stage, stage by stage.
pub open spec fn instruction_pass(rules: Seq<Rule>, stages: Seq<Stage>, content: Seq<char>) -> Seq<
    FindingView,
>
    decreases stages.len(),
{
    if stages.len() == 0 {
        Seq::empty()
    } else {
        instruction_pass(rules, stages.drop_last(), content) + stage_instruction_findings(
            rules,
            stages.last().instructions@,
            stages.last().index,
            content,
        )
    }
}

/// Whether a stage whose last `USER` instruction names `last` ends as `root`:
/// there is no such instruction, or it names exactly `root`.
pub open spec fn is_root_user(last: Option<Seq<char>>) -> bool {
    last is None || last == Some("root"@)
}

/// Whether a stage ends as `root`: it has no `USER` instruction, or the
/// argument of its last one is exactly `root`.
pub open spec fn ends_as_root(stage: Stage) -> bool {
    is_root_user(last_user(stage.instructions@))
}

/// The line of a stage: that of its first instruction.
pub open spec fn stage_line(stage: Stage, content: Seq<char>) -> Option<usize> {
    if stage.instructions@.len() > 0 {
        line_at(content, stage.instructions@[0].offset())
    } else {
        None
    }
}

/// The finding of a rule about the stage `stage_index`, at the line `line`.
pub open spec fn rule_finding(rule: Rule, stage_index: usize, line: Option<usize>) -> FindingView {
    FindingView {
        kind: rule.spec_id(),
        description: stage_description(stage_index, rule.spec_message()),
        risk: risk_of(rule.spec_severity()),
        line,
    }
}

/// Whether a rule fires on an instruction of the kind `kind` with the fields
/// `fields`: it is an `Instruction` rule of that kind, and its matcher holds of
/// the fields.
pub open spec fn kind_rule_fires(rule: Rule, kind: Seq<char>, fields: Map<Seq<char>, Seq<char>>) -> bool {
    match rule {
        Rule::Instruction { kind: own, matcher, .. } => own@ == kind && matcher_holds(
            matcher,
            fields,
        ),
        _ => false,
    }
}

/// The findings of `rules` on an instruction of the kind `kind` with the
/// fields `fields`, in the order of the rules.
pub open spec fn kind_findings(
    rules: Seq<Rule>,
    kind: Seq<char>,
    fields: Map<Seq<char>, Seq<char>>,
    stage_index: usize,
    line: Option<usize>,
) -> Seq<FindingView>
    decreases rules.len(),
{
    if rules.len() == 0 {
        Seq::empty()
    } else if kind_rule_fires(rules.last(), kind, fields) {
        kind_findings(rules.drop_last(), kind, fields, stage_index, line).push(
            rule_finding(rules.last(), stage_index, line),
        )
    } else {
        kind_findings(rules.drop_last(), kind, fields, stage_index, line)
    }
}

/// Whether a rule fires on a stage whose last `USER` instruction names
/// `last`: it is a `Stage` rule that asks for a user other than `root`, and
/// the stage ends as `root`.
pub open spec fn last_user_rule_fires(rule: Rule, last: Option<Seq<char>>) -> bool {
    match rule {
        Rule::Stage { when, .. } => when.must_end_non_root && is_root_user(last),
        _ => false,
    }
}

/// The findings of `rules` on a stage whose last `USER` instruction names
/// `last`, in the order of the rules.
pub open spec fn last_user_findings(
    rules: Seq<Rule>,
    last: Option<Seq<char>>,
    stage_index: usize,
    line: Option<usize>,
) -> Seq<FindingView>
    decreases rules.len(),
{
    if rules.len() == 0 {
        Seq::empty()
    } else if last_user_rule_fires(rules.last(), last) {
        last_user_findings(rules.drop_last(), last, stage_index, line).push(
            rule_finding(rules.last(), stage_index, line),
        )
    } else {
        last_user_findings(rules.drop_last(), last, stage_index, line)
    }
}

/// The findings on an instruction are those on its kind, its fields and its
/// line.
pub proof fn lemma_instruction_findings(
    rules: Seq<Rule>,
    ins: Instruction,
    stage_index: usize,
    content: Seq<char>,
)
    ensures
        instruction_findings(rules, ins, stage_index, content) == kind_findings(
            rules,
            instruction_kind(ins),
            instruction_fields(ins),
            stage_index,
            line_at(content, ins.offset()),
        ),
    decreases rules.len(),
{
    if rules.len() > 0 {
        lemma_instruction_findings(rules.drop_last(), ins, stage_index, content);
    }
}

/// The findings on a stage are those on its last user, its index and its
/// line.
pub proof fn lemma_stage_findings(rules: Seq<Rule>, stage: Stage, content: Seq<char>)
    ensures
        stage_findings(rules, stage, content) == last_user_findings(
            rules,
            last_user(stage.instructions@),
            stage.index,
            stage_line(stage, content),
        ),
    decreases rules.len(),
{
    if rules.len() > 0 {
        lemma_stage_findings(rules.drop_last(), stage, content);
    }
}

/// Whether a rule fires on a stage: it is a `Stage` rule that asks for a user
/// other than `root`, and the stage ends as `root`.
pub open spec fn stage_rule_fires(rule: Rule, stage: Stage) -> bool {
    match rule {
        Rule::Stage { when, .. } => when.must_end_non_root && ends_as_root(stage),
        _ => false,
    }
}

/// The finding of a rule that fires on a stage. Its line is that of the
/// stage's first instruction.
pub open spec fn stage_finding(rule: Rule, stage: Stage, content: Seq<char>) -> FindingView {
    FindingView {
        kind: rule.spec_id(),
        description: stage_description(stage.index, rule.spec_message()),
        risk: risk_of(rule.spec_severity()),
        line: if stage.instructions@.len() > 0 {
            line_at(content, stage.instructions@[0].offset())
        } else {
            None
        },
    }
}

/// The findings of `rules` on one stage, in the order of the rules.
pub open spec fn stage_findings(rules: Seq<Rule>, stage: Stage, content: Seq<char>) -> Seq<
    FindingView,
>
    decreases rules.len(),
{
    if rules.len() == 0 {
        Seq::empty()
    } else if stage_rule_fires(rules.last(), stage) {
        stage_findings(rules.drop_last(), stage, content).push(
            stage_finding(rules.last(), stage, content),
        )
    } else {
        stage_findings(rules.drop_last(), stage, content)
    }
}

/// The findings of the stage pass: those of `rules` on every stage, stage by
/// stage.
pub open spec fn stage_pass(rules: Seq<Rule>, stages: Seq<Stage>, content: Seq<char>) -> Seq<
    FindingView,
>
    decreases stages.len(),
{
    if stages.len() == 0 {
        Seq::empty()
    } else {
        stage_pass(rules, stages.drop_last(), content) + stage_findings(
            rules,
            stages.last(),
            content,
        )
    }
}

/// Whether an instruction is a `COPY` with the source `.`.
pub open spec fn copies_dot(ins: Instruction) -> bool {
    match ins {
        Instruction::Copy { sources, .. } => exists|k: int|
            0 <= k < sources@.len() && (#[trigger] sources@[k])@ == "."@,
        _ => false,
    }
}

/// Whether some instruction of the stage is a `COPY` with the source `.`.
pub open spec fn stage_copies_dot(stage: Stage) -> bool {
    exists|j: int| 0 <= j < stage.instructions@.len() && copies_dot(#[trigger] stage.instructions@[j])
}

/// Whether some stage holds a `COPY` with the source `.`.
pub open spec fn has_copy_dot(stages: Seq<Stage>) -> bool {
    exists|i: int| 0 <= i < stages.len() && stage_copies_dot(#[trigger] stages[i])
}

/// Whether a rule fires on the file: it is a `File` rule that asks for a
/// `.dockerignore` file, some stage copies `.`, and there is no such file.
pub open spec fn file_rule_fires(rule: Rule, stages: Seq<Stage>, dockerignore_exists: bool) -> bool {
    match rule {
        Rule::File { when, .. } => when.requires_dockerignore_if_copy_dot && has_copy_dot(stages)
            && !dockerignore_exists,
        _ => false,
    }
}

/// The finding of a rule that fires on the file. It has no line.
pub open spec fn file_finding(rule: Rule) -> FindingView {
    FindingView {
        kind: rule.spec_id(),
        description: rule.spec_message(),
        risk: risk_of(rule.spec_severity()),
        line: None,
    }
}

/// The findings of the file pass: those of `rules` on the file, in the order
/// of the rules.
pub open spec fn file_pass(rules: Seq<Rule>, stages: Seq<Stage>, dockerignore_exists: bool) -> Seq<
    FindingView,
>
    decreases rules.len(),
{
    if rules.len() == 0 {
        Seq::empty()
    } else if file_rule_fires(rules.last(), stages, dockerignore_exists) {
        file_pass(rules.drop_last(), stages, dockerignore_exists).push(file_finding(rules.last()))
    } else {
        file_pass(rules.drop_last(), stages, dockerignore_exists)
    }
}

/// Appends the findings of `more` to `findings`.
pub fn extend_findings(findings: &mut Vec<Finding>, more: Vec<Finding>)
    ensures
        final(findings)@ == old(findings)@ + more@,
        finding_views(final(findings)@) == finding_views(old(findings)@) + finding_views(more@),
{
    let ghost added = more@;
    let mut more = more;
    findings.append(&mut more);
    assert(finding_views(findings@) =~= finding_views(old(findings)@) + finding_views(added));
}

/// The text of an optional string.
pub open spec fn user_text(user: Option<String>) -> Option<Seq<char>> {
    match user {
        Some(name) => Some(name@),
        None => None,
    }
}

/// Checks an instruction of the kind `kind`, with the fields `context`, of
/// the stage `stage_index` and at the line `line`, against the `Instruction`
/// rules of `rules`.
pub fn check_rules_of_kind(
    rules: &[Rule],
    kind: &str,
    context: &Context,
    stage_index: usize,
    line: Option<usize>,
) -> (findings: Vec<Finding>)
    ensures
        finding_views(findings@) == kind_findings(rules@, kind@, context@, stage_index, line),
{
    let mut findings: Vec<Finding> = Vec::new();
    let mut i: usize = 0;
    assert(finding_views(findings@) =~= Seq::<FindingView>::empty());
    while i < rules.len()
        invariant
            i <= rules.len(),
            finding_views(findings@) == kind_findings(
                rules@.take(i as int),
                kind@,
                context@,
                stage_index,
                line,
            ),
        decreases rules.len() - i,
    {
        proof {
            assert(rules@.take(i + 1).drop_last() =~= rules@.take(i as int));
            assert(rules@.take(i + 1).last() == rules@[i as int]);
        }
        let ghost before = findings@;
        if let Rule::Instruction { id, kind: own, matcher, severity, message, .. } = &rules[i] {
            if same_text(kind, own.as_str()) && matches_matcher(matcher, context) {
                let finding = Finding {
                    kind: id.clone(),
                    description: describe_stage(stage_index, message.as_str()),
                    risk: severity_to_risk(severity),
                    line,
                };
                findings.push(finding);
                assert(finding_views(findings@) =~= finding_views(before).push(
                    rule_finding(rules@[i as int], stage_index, line),
                ));
            }
        }
        i += 1;
    }
    assert(rules@.take(rules@.len() as int) =~= rules@);
    findings
}

/// Checks one instruction against the `Instruction` rules of `rules`.
pub fn check_instruction_rules(
    rules: &[Rule],
    ins: &Instruction,
    stage_index: usize,
    content: &str,
) -> (findings: Vec<Finding>)
    ensures
        finding_views(findings@) == instruction_findings(rules@, *ins, stage_index, content@),
{
    let kind = get_instruction_kind(ins);
    let context = instruction_to_map(ins);
    let line = get_line_number(ins, content);
    proof {
        lemma_instruction_findings(rules@, *ins, stage_index, content@);
    }
    check_rules_of_kind(rules, kind.as_str(), &context, stage_index, line)
}

/// Whether a stage whose last `USER` instruction names `last` ends as `root`.
pub fn ends_as_root_user(last: &Option<String>) -> (b: bool)
    ensures
        b == is_root_user(user_text(*last)),
{
    match last {
        Some(name) => same_text(name.as_str(), "root"),
        None => true,
    }
}

/// Checks a stage whose last `USER` instruction names `last`, with the index
/// `stage_index` and at the line `line`, against the `Stage` rules of `rules`.
pub fn check_rules_for_user(
    rules: &[Rule],
    last: &Option<String>,
    stage_index: usize,
    line: Option<usize>,
) -> (findings: Vec<Finding>)
    ensures
        finding_views(findings@) == last_user_findings(
            rules@,
            user_text(*last),
            stage_index,
            line,
        ),
{
    let as_root = ends_as_root_user(last);
    let mut findings: Vec<Finding> = Vec::new();
    let mut i: usize = 0;
    assert(finding_views(findings@) =~= Seq::<FindingView>::empty());
    while i < rules.len()
        invariant
            i <= rules.len(),
            as_root == is_root_user(user_text(*last)),
            finding_views(findings@) == last_user_findings(
                rules@.take(i as int),
                user_text(*last),
                stage_index,
                line,
            ),
        decreases rules.len() - i,
    {
        proof {
            assert(rules@.take(i + 1).drop_last() =~= rules@.take(i as int));
            assert(rules@.take(i + 1).last() == rules@[i as int]);
        }
        let ghost before = findings@;
        if let Rule::Stage { id, when, severity, message, .. } = &rules[i] {
            if when.must_end_non_root && as_root {
                let finding = Finding {
                    kind: id.clone(),
                    description: describe_stage(stage_index, message.as_str()),
                    risk: severity_to_risk(severity),
                    line,
                };
                findings.push(finding);
                assert(finding_views(findings@) =~= finding_views(before).push(
                    rule_finding(rules@[i as int], stage_index, line),
                ));
            }
        }
        i += 1;
    }
    assert(rules@.take(rules@.len() as int) =~= rules@);
    findings
}

/// Checks one stage against the `Stage` rules of `rules`.
pub fn check_stage_rules(rules: &[Rule], stage: &Stage, content: &str) -> (findings: Vec<Finding>)
    ensures
        finding_views(findings@) == stage_findings(rules@, *stage, content@),
{
    let last = find_last_user_instruction(stage);
    let line = if stage.instructions.len() > 0 {
        get_line_number(&stage.instructions[0], content)
    } else {
        None
    };
    proof {
        lemma_stage_findings(rules@, *stage, content@);
    }
    check_rules_for_user(rules, &last, stage.index, line)
}

/// Whether an instruction is a `COPY` with the source `.`.
fn instruction_copies_dot(ins: &Instruction) -> (b: bool)
    ensures
        b == copies_dot(*ins),
{
    if let Instruction::Copy { sources, .. } = ins {
        let mut k: usize = 0;
        while k < sources.len()
            invariant
                k <= sources.len(),
                *ins matches Instruction::Copy { sources: held, .. } && held == *sources,
                forall|j: int| 0 <= j < k ==> (#[trigger] sources@[j])@ != "."@,
            decreases sources.len() - k,
        {
            if same_text(sources[k].as_str(), ".") {
                assert(sources@[k as int]@ == "."@);
                return true;
            }
            k += 1;
        }
    }
    false
}

/// Whether some instruction of the stage is a `COPY` with the source `.`.
fn stage_has_copy_dot(stage: &Stage) -> (b: bool)
    ensures
        b == stage_copies_dot(*stage),
{
    let mut j: usize = 0;
    while j < stage.instructions.len()
        invariant
            j <= stage.instructions.len(),
            forall|t: int| 0 <= t < j ==> !copies_dot(#[trigger] stage.instructions@[t]),
        decreases stage.instructions.len() - j,
    {
        if instruction_copies_dot(&stage.instructions[j]) {
            assert(copies_dot(stage.instructions@[j as int]));
            return true;
        }
        j += 1;
    }
    false
}

/// Whether some stage of the file holds a `COPY` with the source `.`.
pub fn copies_build_context(df: &Dockerfile) -> (b: bool)
    ensures
        b == has_copy_dot(df.stages@),
{
    let mut i: usize = 0;
    while i < df.stages.len()
        invariant
            i <= df.stages.len(),
            forall|s: int| 0 <= s < i ==> !stage_copies_dot(#[trigger] df.stages@[s]),
        decreases df.stages.len() - i,
    {
        if stage_has_copy_dot(&df.stages[i]) {
            assert(stage_copies_dot(df.stages@[i as int]));
            return true;
        }
        i += 1;
    }
    false
}

/// Checks the file against the `File` rules of `rules`. `dockerignore_exists`
/// tells whether a `.dockerignore` file lies beside the Dockerfile.
pub fn check_file_rules(rules: &[Rule], df: &Dockerfile, dockerignore_exists: bool) -> (findings:
    Vec<Finding>)
    ensures
        finding_views(findings@) == file_pass(rules@, df.stages@, dockerignore_exists),
{
    let mut findings: Vec<Finding> = Vec::new();
    let mut i: usize = 0;
    assert(finding_views(findings@) =~= Seq::<FindingView>::empty());
    while i < rules.len()
        invariant
            i <= rules.len(),
            finding_views(findings@) == file_pass(
                rules@.take(i as int),
                df.stages@,
                dockerignore_exists,
            ),
        decreases rules.len() - i,
    {
        proof {
            assert(rules@.take(i + 1).drop_last() =~= rules@.take(i as int));
            assert(rules@.take(i + 1).last() == rules@[i as int]);
        }
        let ghost before = findings@;
        if let Rule::File { id, when, severity, message, .. } = &rules[i] {
            if when.requires_dockerignore_if_copy_dot {
                if copies_build_context(df) && !dockerignore_exists {
                    let finding = Finding {
                        kind: id.clone(),
                        description: message.clone(),
                        risk: severity_to_risk(severity),
                        line: None,
                    };
                    findings.push(finding);
                    assert(finding_views(findings@) =~= finding_views(before).push(
                        file_finding(rules@[i as int]),
                    ));
                }
            }
        }
        i += 1;
    }
    assert(rules@.take(rules@.len() as int) =~= rules@);
    findings
}

/// The instruction pass: every instruction of every stage against the
/// `Instruction` rules.
pub fn scan_instructions(dockerfile: &Dockerfile, rules: &[Rule], content: &str) -> (findings: Vec<
    Finding,
>)
    ensures
        finding_views(findings@) == instruction_pass(rules@, dockerfile.stages@, content@),
{
    let mut findings: Vec<Finding> = Vec::new();
    let mut s: usize = 0;
    assert(finding_views(findings@) =~= Seq::<FindingView>::empty());
    while s < dockerfile.stages.len()
        invariant
            s <= dockerfile.stages.len(),
            finding_views(findings@) == instruction_pass(
                rules@,
                dockerfile.stages@.take(s as int),
                content@,
            ),
        decreases dockerfile.stages.len() - s,
    {
        let stage = &dockerfile.stages[s];
        proof {
            assert(dockerfile.stages@.take(s + 1).drop_last() =~= dockerfile.stages@.take(s as int));
            assert(dockerfile.stages@.take(s + 1).last() == *stage);
        }
        let ghost before = finding_views(findings@);
        let mut j: usize = 0;
        assert(before + Seq::<FindingView>::empty() =~= before);
        while j < stage.instructions.len()
            invariant
                j <= stage.instructions.len(),
                finding_views(findings@) == before + stage_instruction_findings(
                    rules@,
                    stage.instructions@.take(j as int),
                    stage.index,
                    content@,
                ),
            decreases stage.instructions.len() - j,
        {
            proof {
                assert(stage.instructions@.take(j + 1).drop_last() =~= stage.instructions@.take(
                    j as int,
                ));
                assert(stage.instructions@.take(j + 1).last() == stage.instructions@[j as int]);
            }
            let found = check_instruction_rules(rules, &stage.instructions[j], stage.index, content);
            let ghost so_far = stage_instruction_findings(
                rules@,
                stage.instructions@.take(j as int),
                stage.index,
                content@,
            );
            extend_findings(&mut findings, found);
            assert((before + so_far) + finding_views(found@) =~= before + (so_far + finding_views(
                found@,
            )));
            j += 1;
        }
        assert(stage.instructions@.take(stage.instructions@.len() as int) =~= stage.instructions@);
        s += 1;
    }
    assert(dockerfile.stages@.take(dockerfile.stages@.len() as int) =~= dockerfile.stages@);
    findings
}

/// The stage pass: every stage against the `Stage` rules.
pub fn scan_stages(dockerfile: &Dockerfile, rules: &[Rule], content: &str) -> (findings: Vec<
    Finding,
>)
    ensures
        finding_views(findings@) == stage_pass(rules@, dockerfile.stages@, content@),
{
    let mut findings: Vec<Finding> = Vec::new();
    let mut s: usize = 0;
    assert(finding_views(findings@) =~= Seq::<FindingView>::empty());
    while s < dockerfile.stages.len()
        invariant
            s <= dockerfile.stages.len(),
            finding_views(findings@) == stage_pass(
                rules@,
                dockerfile.stages@.take(s as int),
                content@,
            ),
        decreases dockerfile.stages.len() - s,
    {
        proof {
            assert(dockerfile.stages@.take(s + 1).drop_last() =~= dockerfile.stages@.take(s as int));
            assert(dockerfile.stages@.take(s + 1).last() == dockerfile.stages@[s as int]);
        }
        let found = check_stage_rules(rules, &dockerfile.stages[s], content);
        extend_findings(&mut findings, found);
        s += 1;
    }
    assert(dockerfile.stages@.take(dockerfile.stages@.len() as int) =~= dockerfile.stages@);
    findings
}

/// The file pass: the whole file against the `File` rules.
pub fn scan_file(dockerfile: &Dockerfile, rules: &[Rule], dockerignore_exists: bool) -> (findings:
    Vec<Finding>)
    ensures
        finding_views(findings@) == file_pass(rules@, dockerfile.stages@, dockerignore_exists),
{
    check_file_rules(rules, dockerfile, dockerignore_exists)
}

/// The risk that a caller's severity level stands for.
pub open spec fn level_risk(level: SeverityLevel) -> RiskLevel {
    match level {
        SeverityLevel::Informative => RiskLevel::Informative,
        SeverityLevel::Low => RiskLevel::Low,
        SeverityLevel::Medium => RiskLevel::Medium,
        SeverityLevel::High => RiskLevel::High,
    }
}

/// The risk that a caller's severity level stands for.
pub fn severity_level_to_risk(level: &SeverityLevel) -> (risk: RiskLevel)
    ensures
        risk == level_risk(*level),
{
    match level {
        SeverityLevel::Informative => RiskLevel::Informative,
        SeverityLevel::Low => RiskLevel::Low,
        SeverityLevel::Medium => RiskLevel::Medium,
        SeverityLevel::High => RiskLevel::High,
    }
}

/// Whether a finding of risk `risk` passes the selection by severity.
///
/// With `severity`, the risk must be that of one of its levels. Without it and
/// with `min_severity`, the risk must be at least that of `min_severity`. With
/// neither, every finding passes.
pub open spec fn risk_selected(
    risk: RiskLevel,
    severity: Option<Seq<SeverityLevel>>,
    min_severity: Option<SeverityLevel>,
) -> bool {
    match severity {
        Some(levels) => exists|i: int| 0 <= i < levels.len() && level_risk(#[trigger] levels[i]) == risk,
        None => match min_severity {
            Some(least) => risk.spec_at_least(level_risk(least)),
            None => true,
        },
    }
}

/// The levels of an optional borrowed list.
pub open spec fn borrowed_levels(severity: Option<&Vec<SeverityLevel>>) -> Option<Seq<SeverityLevel>> {
    match severity {
        Some(levels) => Some(levels@),
        None => None,
    }
}

/// The level of an optional borrowed level.
pub open spec fn borrowed_level(level: Option<&SeverityLevel>) -> Option<SeverityLevel> {
    match level {
        Some(l) => Some(*l),
        None => None,
    }
}

/// The findings of `findings` that pass the selection by severity.
pub open spec fn selected_findings(
    findings: Seq<FindingView>,
    severity: Option<Seq<SeverityLevel>>,
    min_severity: Option<SeverityLevel>,
) -> Seq<FindingView> {
    kept(findings, |f: FindingView| risk_selected(f.risk, severity, min_severity))
}

/// Whether the risk of one of `levels` is `risk`.
fn is_listed(levels: &Vec<SeverityLevel>, risk: RiskLevel) -> (b: bool)
    ensures
        b == risk_selected(risk, Some(levels@), None),
{
    let mut i: usize = 0;
    while i < levels.len()
        invariant
            i <= levels.len(),
            forall|j: int| 0 <= j < i ==> level_risk(#[trigger] levels@[j]) != risk,
        decreases levels.len() - i,
    {
        if severity_level_to_risk(&levels[i]) == risk {
            return true;
        }
        i += 1;
    }
    false
}

/// Keeps the findings that pass the selection by severity, in their order.
pub fn filter_findings_by_severity(
    findings: &mut Vec<Finding>,
    severity: Option<&Vec<SeverityLevel>>,
    min_severity: Option<&SeverityLevel>,
)
    ensures
        final(findings)@ == kept(
            old(findings)@,
            |f: Finding|
                risk_selected(f.risk, borrowed_levels(severity), borrowed_level(min_severity)),
        ),
        finding_views(final(findings)@) == selected_findings(
            finding_views(old(findings)@),
            borrowed_levels(severity),
            borrowed_level(min_severity),
        ),
{
    let ghost keep = |f: Finding|
        risk_selected(f.risk, borrowed_levels(severity), borrowed_level(min_severity));
    let ghost keep_view = |f: FindingView|
        risk_selected(f.risk, borrowed_levels(severity), borrowed_level(min_severity));
    let mut out: Vec<Finding> = Vec::new();
    let mut i: usize = 0;
    assert(finding_views(out@) =~= Seq::<FindingView>::empty());
    while i < findings.len()
        invariant
            i <= findings.len(),
            findings@ == old(findings)@,
            keep == (|f: Finding|
                risk_selected(f.risk, borrowed_levels(severity), borrowed_level(min_severity))),
            keep_view == (|f: FindingView|
                risk_selected(f.risk, borrowed_levels(severity), borrowed_level(min_severity))),
            out@ == kept(findings@.take(i as int), keep),
            finding_views(out@) == kept(finding_views(findings@).take(i as int), keep_view),
        decreases findings.len() - i,
    {
        proof {
            assert(findings@.take(i + 1).drop_last() =~= findings@.take(i as int));
            assert(findings@.take(i + 1).last() == findings@[i as int]);
            assert(finding_views(findings@).take(i + 1).drop_last() =~= finding_views(
                findings@,
            ).take(i as int));
            assert(finding_views(findings@).take(i + 1).last() == findings@[i as int]@);
        }
        let risk = findings[i].risk;
        let passes = match severity {
            Some(levels) => is_listed(levels, risk),
            None => match min_severity {
                Some(least) => risk.at_least(severity_level_to_risk(least)),
                None => true,
            },
        };
        if passes {
            let ghost before = out@;
            out.push(findings[i].clone());
            assert(finding_views(out@) =~= finding_views(before).push(findings@[i as int]@));
        }
        i += 1;
    }
    proof {
        assert(findings@.take(findings@.len() as int) =~= findings@);
        assert(finding_views(findings@).take(findings@.len() as int) =~= finding_views(findings@));
    }
    *findings = out;
}

/// Whether the scan fails: a threshold is set, and the risk of some finding is
/// at least the threshold's. Without a threshold no scan fails.
pub open spec fn reaches_threshold(findings: Seq<FindingView>, fail_on: Option<SeverityLevel>) -> bool {
    match fail_on {
        Some(threshold) => exists|i: int|
            0 <= i < findings.len() && (#[trigger] findings[i]).risk.spec_at_least(
                level_risk(threshold),
            ),
        None => false,
    }
}

/// Whether the scan fails on these findings.
pub fn should_fail_scan(findings: &[Finding], fail_on: Option<&SeverityLevel>) -> (fails: bool)
    ensures
        fails == reaches_threshold(finding_views(findings@), borrowed_level(fail_on)),
{
    if let Some(threshold) = fail_on {
        let threshold_risk = severity_level_to_risk(threshold);
        let mut i: usize = 0;
        while i < findings.len()
            invariant
                i <= findings.len(),
                fail_on == Some(threshold),
                threshold_risk == level_risk(*threshold),
                forall|j: int|
                    0 <= j < i ==> !(#[trigger] finding_views(findings@)[j]).risk.spec_at_least(
                        threshold_risk,
                    ),
            decreases findings.len() - i,
        {
            if findings[i].risk.at_least(threshold_risk) {
                assert(finding_views(findings@)[i as int].risk == findings@[i as int].risk);
                return true;
            }
            assert(finding_views(findings@)[i as int].risk == findings@[i as int].risk);
            i += 1;
        }
        false
    } else {
        false
    }
}

/// The texts of an optional borrowed list of strings.
pub open spec fn borrowed_names(names: Option<&Vec<String>>) -> Option<Seq<Seq<char>>> {
    match names {
        Some(list) => Some(views(list@)),
        None => None,
    }
}

/// Whether the rule with id `id` is selected. With `only`, the id must be one
/// of its ids. Without it and with `exclude`, the id must be none of its ids.
/// With neither, every rule is selected. Ids are compared in normalized form.
pub open spec fn rule_selected(
    id: Seq<char>,
    only: Option<Seq<Seq<char>>>,
    exclude: Option<Seq<Seq<char>>>,
) -> bool {
    match only {
        Some(names) => normalized_set(names).contains(lowercase_of(id)),
        None => match exclude {
            Some(names) => !normalized_set(names).contains(lowercase_of(id)),
            None => true,
        },
    }
}

/// The rules of `rules` that are selected, in their order.
pub open spec fn selected_rules(
    rules: Seq<Rule>,
    only: Option<Seq<Seq<char>>>,
    exclude: Option<Seq<Seq<char>>>,
) -> Seq<Rule> {
    kept(rules, |rule: Rule| rule_selected(rule.spec_id(), only, exclude))
}

/// Keeps the rules that are selected by `only` or, without it, by `exclude`.
pub fn filter_rules(rules: &mut Vec<Rule>, only: Option<&Vec<String>>, exclude: Option<&Vec<String>>)
    ensures
        final(rules)@ == selected_rules(
            old(rules)@,
            borrowed_names(only),
            borrowed_names(exclude),
        ),
{
    let ghost keep = |rule: Rule|
        rule_selected(rule.spec_id(), borrowed_names(only), borrowed_names(exclude));
    let only_ids = match only {
        Some(names) => Some(normalized_ids(names)),
        None => None,
    };
    let exclude_ids = match exclude {
        Some(names) => Some(normalized_ids(names)),
        None => None,
    };
    let mut kept_count: usize = 0;
    let mut i: usize = 0;
    let total: usize = rules.len();
    assert(rules@.take(0) =~= Seq::<Rule>::empty());
    assert(Seq::<Rule>::empty() + rules@.skip(0) =~= rules@);
    while i < total
        invariant
            i <= total,
            total == old(rules)@.len(),
            kept_count <= i,
            keep == (|rule: Rule|
                rule_selected(rule.spec_id(), borrowed_names(only), borrowed_names(exclude))),
            only_ids is Some == only is Some,
            exclude_ids is Some == exclude is Some,
            only is Some ==> only_ids->Some_0@ == normalized_set(views(only->Some_0@)),
            exclude is Some ==> exclude_ids->Some_0@ == normalized_set(views(exclude->Some_0@)),
            kept_count == kept(old(rules)@.take(i as int), keep).len(),
            rules@ == kept(old(rules)@.take(i as int), keep) + old(rules)@.skip(i as int),
        decreases total - i,
    {
        let ghost done = kept(old(rules)@.take(i as int), keep);
        proof {
            assert(old(rules)@.take(i + 1).drop_last() =~= old(rules)@.take(i as int));
            assert(old(rules)@.take(i + 1).last() == old(rules)@[i as int]);
            assert(rules@[kept_count as int] == old(rules)@.skip(i as int)[0]);
        }
        let id = get_rule_id(&rules[kept_count]).to_lowercase();
        if is_selected_id(id.as_str(), &only_ids, &exclude_ids) {
            assert(done.push(old(rules)@[i as int]) + old(rules)@.skip(i + 1) =~= done + old(
                rules,
            )@.skip(i as int));
            kept_count += 1;
        } else {
            rules.remove(kept_count);
            assert(rules@ =~= done + old(rules)@.skip(i + 1));
        }
        i += 1;
    }
    proof {
        assert(old(rules)@.take(total as int) =~= old(rules)@);
        assert(old(rules)@.skip(total as int) =~= Seq::<Rule>::empty());
        assert(rules@ =~= kept(old(rules)@, keep));
    }
}

/// The ids of `rules`, in lower case.
pub open spec fn rule_ids(rules: Seq<Rule>) -> Set<Seq<char>> {
    Set::new(
        |t: Seq<char>|
            exists|i: int| 0 <= i < rules.len() && lowercase_of((#[trigger] rules[i]).spec_id()) == t,
    )
}

/// The ids of `rules`, in lower case.
pub fn collect_rule_ids(rules: &[Rule]) -> (ids: IdSet)
    ensures
        ids@ == rule_ids(rules@),
{
    let mut ids = IdSet::new();
    let mut i: usize = 0;
    assert(ids@ =~= rule_ids(rules@.take(0)));
    while i < rules.len()
        invariant
            i <= rules.len(),
            ids@ == rule_ids(rules@.take(i as int)),
        decreases rules.len() - i,
    {
        let ghost before = rules@.take(i as int);
        let ghost after = rules@.take(i + 1);
        let ghost added = lowercase_of(rules@[i as int].spec_id());
        ids.insert(get_rule_id(&rules[i]).to_lowercase());
        proof {
            assert forall|t: Seq<char>|
                rule_ids(after).contains(t) <==> rule_ids(before).insert(added).contains(t) by {
                if rule_ids(after).contains(t) {
                    let j = choose|j: int|
                        0 <= j < after.len() && lowercase_of((#[trigger] after[j]).spec_id()) == t;
                    if j < i {
                        assert(before[j] == after[j]);
                    }
                }
                if rule_ids(before).contains(t) {
                    let j = choose|j: int|
                        0 <= j < before.len() && lowercase_of((#[trigger] before[j]).spec_id())
                            == t;
                    assert(after[j] == before[j]);
                }
                if t == added {
                    assert(after[i as int] == rules@[i as int]);
                }
            }
            assert(ids@ =~= rule_ids(after));
        }
        i += 1;
    }
    assert(rules@.take(rules@.len() as int) =~= rules@);
    ids
}

/// The findings of the three passes, one pass after another.
pub open spec fn document_findings(
    rules: Seq<Rule>,
    stages: Seq<Stage>,
    content: Seq<char>,
    dockerignore_exists: bool,
) -> Seq<FindingView> {
    instruction_pass(rules, stages, content) + stage_pass(rules, stages, content) + file_pass(
        rules,
        stages,
        dockerignore_exists,
    )
}

/// The texts of an optional list of strings.
pub open spec fn names_of(names: Option<Vec<String>>) -> Option<Seq<Seq<char>>> {
    match names {
        Some(list) => Some(views(list@)),
        None => None,
    }
}

/// The levels of an optional list.
pub open spec fn levels_of(severity: Option<Vec<SeverityLevel>>) -> Option<Seq<SeverityLevel>> {
    match severity {
        Some(levels) => Some(levels@),
        None => None,
    }
}

/// Whether every id of an optional list names one of `available`.
pub open spec fn names_known(available: Set<Seq<char>>, names: Option<Seq<Seq<char>>>) -> bool {
    match names {
        Some(list) => all_known(available, list),
        None => true,
    }
}

/// What a scan gives: the findings that passed the selection by severity, and
/// whether the scan fails.
#[derive(Debug)]
pub struct ScanOutcome {
    pub findings: Vec<Finding>,
    pub should_fail: bool,
}

/// Scans a parsed Dockerfile.
///
/// `content` is the text that `dockerfile` was parsed from, and
/// `dockerignore_exists` tells whether a `.dockerignore` file lies beside it.
/// The ids of `only` and `exclude` are checked first: where one of them names
/// no rule the scan is not run, and the error lists the unknown ids of `only`
/// or, where `only` has none, those of `exclude`. Then the rules are selected,
/// the three passes are run on the selected rules, the findings are selected
/// by severity, and the decision to fail is taken on the findings that are
/// left.
pub fn scan_dockerfile(
    dockerfile: &Dockerfile,
    content: &str,
    rules: Vec<Rule>,
    dockerignore_exists: bool,
    only: Option<Vec<String>>,
    exclude: Option<Vec<String>>,
    severity: Option<Vec<SeverityLevel>>,
    min_severity: Option<SeverityLevel>,
    fail_on: Option<SeverityLevel>,
) -> (r: Result<ScanOutcome, UnknownIds>)
    ensures
        r is Ok <==> names_known(rule_ids(rules@), names_of(only)) && names_known(
            rule_ids(rules@),
            names_of(exclude),
        ),
        match r {
            Ok(outcome) => {
                &&& finding_views(outcome.findings@) == selected_findings(
                    document_findings(
                        selected_rules(rules@, names_of(only), names_of(exclude)),
                        dockerfile.stages@,
                        content@,
                        dockerignore_exists,
                    ),
                    levels_of(severity),
                    min_severity,
                )
                &&& outcome.should_fail == reaches_threshold(
                    finding_views(outcome.findings@),
                    fail_on,
                )
            },
            Err(e) => if !names_known(rule_ids(rules@), names_of(only)) {
                e.flag@ == "--only"@ && views(e.ids@) == unknown_names(
                    rule_ids(rules@),
                    names_of(only)->Some_0,
                )
            } else {
                e.flag@ == "--exclude"@ && views(e.ids@) == unknown_names(
                    rule_ids(rules@),
                    names_of(exclude)->Some_0,
                )
            },
        },
{
    let mut rules = rules;
    let available = collect_rule_ids(rules.as_slice());
    match check_selection(&available, &only, "--only") {
        Ok(_) => {},
        Err(e) => {
            return Err(e);
        },
    }
    match check_selection(&available, &exclude, "--exclude") {
        Ok(_) => {},
        Err(e) => {
            return Err(e);
        },
    }
    filter_rules(&mut rules, only.as_ref(), exclude.as_ref());
    let mut all_findings: Vec<Finding> = Vec::new();
    assert(finding_views(all_findings@) =~= Seq::<FindingView>::empty());
    let found = scan_instructions(dockerfile, rules.as_slice(), content);
    extend_findings(&mut all_findings, found);
    let found = scan_stages(dockerfile, rules.as_slice(), content);
    extend_findings(&mut all_findings, found);
    let found = scan_file(dockerfile, rules.as_slice(), dockerignore_exists);
    extend_findings(&mut all_findings, found);
    assert(finding_views(all_findings@) =~= document_findings(
        rules@,
        dockerfile.stages@,
        content@,
        dockerignore_exists,
    ));
    filter_findings_by_severity(&mut all_findings, severity.as_ref(), min_severity.as_ref());
    let should_fail = should_fail_scan(all_findings.as_slice(), fail_on.as_ref());
    Ok(ScanOutcome { findings: all_findings, should_fail })
}

/// A rule never fires on an instruction whose kind is not the rule's kind, and
/// so gives no finding on it.
pub proof fn lemma_other_kind_never_fires(
    rule: Rule,
    ins: Instruction,
    stage_index: usize,
    content: Seq<char>,
)
    requires
        rule matches Rule::Instruction { kind, .. } && kind@ != instruction_kind(ins),
    ensures
        !instruction_rule_fires(rule, ins),
        instruction_findings(seq![rule], ins, stage_index, content) == Seq::<FindingView>::empty(),
{
    assert(seq![rule].drop_last() =~= Seq::<Rule>::empty());
    assert(seq![rule].last() == rule);
    assert(instruction_findings(Seq::<Rule>::empty(), ins, stage_index, content)
        == Seq::<FindingView>::empty());
}

/// A scan whose `only` names an id that no rule has, compared without regard
/// to case and to surrounding white space, is not run: the names are not all
/// known, which is when the scan gives an error, and the id is among the ids
/// that the error lists.
pub proof fn lemma_unknown_id_stops_scan(rules: Seq<Rule>, only: Seq<Seq<char>>, i: int)
    requires
        0 <= i < only.len(),
        forall|j: int|
            0 <= j < rules.len() ==> lowercase_of((#[trigger] rules[j]).spec_id())
                != crate::selection::normalized(only[i]),
    ensures
        !names_known(rule_ids(rules), Some(only)),
        unknown_names(rule_ids(rules), only).contains(only[i]),
{
    lemma_unknown_name(rule_ids(rules), only, i);
}

/// A stage without a `USER` instruction ends as `root`, and so does a stage
/// whose last `USER` instruction names `root`; a stage whose last `USER`
/// instruction names another user does not.
pub proof fn lemma_stage_end(stage: Stage)
    ensures
        last_user(stage.instructions@) is None ==> ends_as_root(stage),
        last_user(stage.instructions@) == Some("root"@) ==> ends_as_root(stage),
        (last_user(stage.instructions@) matches Some(name) && name != "root"@) ==> !ends_as_root(
            stage,
        ),
{
}

/// Where a `.dockerignore` file exists, or no stage copies `.`, the file pass
/// gives no finding.
pub proof fn lemma_file_pass_silent(rules: Seq<Rule>, stages: Seq<Stage>, dockerignore_exists: bool)
    requires
        dockerignore_exists || !has_copy_dot(stages),
    ensures
        file_pass(rules, stages, dockerignore_exists) == Seq::<FindingView>::empty(),
    decreases rules.len(),
{
    if rules.len() > 0 {
        lemma_file_pass_silent(rules.drop_last(), stages, dockerignore_exists);
    }
}

/// The file pass gives at most one finding for each rule, and exactly one for a
/// rule that fires.
pub proof fn lemma_file_pass_count(rules: Seq<Rule>, stages: Seq<Stage>, dockerignore_exists: bool)
    ensures
        file_pass(rules, stages, dockerignore_exists).len() <= rules.len(),
        rules.len() == 1 ==> file_pass(rules, stages, dockerignore_exists).len() == if file_rule_fires(
            rules[0],
            stages,
            dockerignore_exists,
        ) {
            1nat
        } else {
            0nat
        },
    decreases rules.len(),
{
    if rules.len() > 0 {
        lemma_file_pass_count(rules.drop_last(), stages, dockerignore_exists);
        if rules.len() == 1 {
            assert(rules.drop_last() =~= Seq::<Rule>::empty());
            assert(file_pass(Seq::<Rule>::empty(), stages, dockerignore_exists).len() == 0);
        }
    }
}

/// No finding of the file pass has a line.
pub proof fn lemma_file_pass_no_line(
    rules: Seq<Rule>,
    stages: Seq<Stage>,
    dockerignore_exists: bool,
    i: int,
)
    requires
        0 <= i < file_pass(rules, stages, dockerignore_exists).len(),
    ensures
        file_pass(rules, stages, dockerignore_exists)[i].line is None,
    decreases rules.len(),
{
    if rules.len() > 0 {
        let before = file_pass(rules.drop_last(), stages, dockerignore_exists);
        if i < before.len() {
            lemma_file_pass_no_line(rules.drop_last(), stages, dockerignore_exists, i);
        }
    }
}

/// The selection by severity keeps exactly the findings whose risk passes:
/// every finding it keeps passes, and every finding that passes is kept.
pub proof fn lemma_selected_findings(
    findings: Seq<FindingView>,
    severity: Option<Seq<SeverityLevel>>,
    min_severity: Option<SeverityLevel>,
)
    ensures
        forall|i: int|
            0 <= i < selected_findings(findings, severity, min_severity).len() ==> {
                &&& risk_selected(
                    (#[trigger] selected_findings(findings, severity, min_severity)[i]).risk,
                    severity,
                    min_severity,
                )
                &&& findings.contains(selected_findings(findings, severity, min_severity)[i])
            },
        forall|i: int|
            0 <= i < findings.len() && risk_selected(
                (#[trigger] findings[i]).risk,
                severity,
                min_severity,
            ) ==> selected_findings(findings, severity, min_severity).contains(findings[i]),
{
    let keep = |f: FindingView| risk_selected(f.risk, severity, min_severity);
    crate::seqs::lemma_kept_elements(findings, keep);
    assert forall|i: int|
        0 <= i < findings.len() && risk_selected(
            (#[trigger] findings[i]).risk,
            severity,
            min_severity,
        ) implies selected_findings(findings, severity, min_severity).contains(findings[i]) by {
        crate::seqs::lemma_kept_complete(findings, keep, i);
    }
}

/// With a minimum severity and no list of severities, a finding passes
/// exactly where its risk is the minimum or above; with a list, exactly where
/// its risk is that of a listed level, whatever the minimum.
pub proof fn lemma_risk_selection(
    risk: RiskLevel,
    levels: Seq<SeverityLevel>,
    least: SeverityLevel,
)
    ensures
        risk_selected(risk, None, Some(least)) <==> risk.rank() >= level_risk(least).rank(),
        risk_selected(risk, Some(levels), Some(least)) <==> exists|i: int|
            0 <= i < levels.len() && level_risk(#[trigger] levels[i]) == risk,
        risk_selected(risk, None, None),
{
}

/// Without a threshold no scan fails. With one, a scan fails exactly where
/// some finding has the threshold's risk or a higher one.
pub proof fn lemma_fail_decision(findings: Seq<FindingView>, threshold: SeverityLevel)
    ensures
        !reaches_threshold(findings, None),
        reaches_threshold(findings, Some(threshold)) <==> exists|i: int|
            0 <= i < findings.len() && (#[trigger] findings[i]).risk.rank() >= level_risk(
                threshold,
            ).rank(),
{
}

} // verus!
