//! The rules of the runtime dialect and their evaluation.
//!
//! A rule selects values from a JSON document with JSONPath expressions,
//! either with one expression or with several whose values are combined, and
//! fires once for each distinct selected text that its condition accepts.
//! JSONPath expressions are evaluated by the `jsonpath_lib` crate.

use crate::detectors::runtime::jsonpath::{is_safe_path, path_is_safe};
use crate::docker::model::{finding_views, Finding, FindingView, RiskLevel};
use crate::pattern::{pattern_accepts, pattern_is_match};
use crate::seqs::kept;
use crate::text::{
    ascii_upper,
    chars_of,
    copy_strings,
    distinct,
    eq_ignore_ascii_case,
    join,
    join_with,
    lemma_distinct,
    lemma_views_push,
    push_str_chars,
    replace_all,
    same_text,
    string_of,
    strip,
    strip_chars,
    substitute,
    views,
    CharClass,
};
use serde_json::Value;
use vstd::prelude::*;

verus! {

/// A JSON value of the `serde_json` crate.
#[verifier::external_type_specification]
#[verifier::external_body]
pub struct ExJsonValue(serde_json::Value);

/// What a JSON value holds: its compact JSON text, as the value's `Display`
/// writes it.
pub uninterp spec fn json_text(value: serde_json::Value) -> Seq<char>;

/// What `jsonpath_lib::select` finds in the document with the JSON text
/// `document` for the expression `path`: `None` where the call fails, and else
/// the compact JSON texts of the nodes it selects, in the order in which it
/// gives them.
pub uninterp spec fn selected_texts(document: Seq<char>, path: Seq<char>) -> Option<
    Seq<Seq<char>>,
>;

/// Calls `jsonpath_lib::select` on `value` and `path`, and writes each selected
/// node as compact JSON text. The result is `selected_texts` of the document's
/// text and the expression. The call stops the program on a slice whose step
/// is zero and on some forms of filter: `path_is_safe` leaves them out.
#[verifier::external_body]
fn select_texts(value: &Value, path: &str) -> (r: Option<Vec<String>>)
    requires
        path_is_safe(path@),
    ensures
        match r {
            Some(texts) => selected_texts(json_text(*value), path@) == Some(views(texts@)),
            None => selected_texts(json_text(*value), path@) is None,
        },
{
    match jsonpath_lib::select(value, path) {
        Ok(nodes) => Some(nodes.iter().map(|node| node.to_string()).collect()),
        Err(_) => None,
    }
}

/// One part of a rule that combines several selections.
#[derive(Debug)]
pub struct MatchPart {
    pub jsonpath: String,
}

/// What a rule selects and which of the selected texts it accepts.
///
/// With `parts`, each part selects a bucket of texts and the candidates are the
/// combinations of one text from each bucket, joined with `separator`. Without
/// `parts` and with `jsonpath`, the candidates are the texts that the
/// expression selects. A candidate is accepted where it equals `equals`; or,
/// with no `equals`, where `regex` finds a match in it; or, with neither,
/// always.
#[derive(Debug)]
pub struct RuleMatcher {
    pub parts: Option<Vec<MatchPart>>,
    pub separator: Option<String>,
    pub equals: Option<String>,
    pub regex: Option<String>,
    pub jsonpath: Option<String>,
}

/// A rule of the runtime dialect.
#[derive(Debug)]
pub struct YamlRule {
    pub id: String,
    pub name: Option<String>,
    pub target: Option<String>,
    pub severity: Option<String>,
    pub description: Option<String>,
    pub references: Vec<String>,
    pub matcher: RuleMatcher,
    pub message: String,
    pub fix: Option<String>,
    pub include_match_in_description: bool,
}

/// The rules of the runtime dialect, in the order in which they are evaluated.
#[derive(Debug)]
pub struct YamlRuleEngine {
    rules: Vec<YamlRule>,
}

/// The texts of a list of lists of strings.
pub open spec fn text_lists(lists: Seq<Vec<String>>) -> Seq<Seq<Seq<char>>> {
    Seq::new(lists.len(), |i: int| views(lists[i]@))
}

/// The texts that a JSONPath expression selects from a document, each without
/// the double quotes at its ends. An expression that the JSONPath crate
/// refuses selects nothing, and so does one of the few that `path_is_safe`
/// refuses.
pub open spec fn node_texts(document: Seq<char>, path: Seq<char>) -> Seq<Seq<char>> {
    if path_is_safe(path) {
        match selected_texts(document, path) {
            Some(texts) => Seq::new(texts.len(), |i: int| strip(texts[i], CharClass::Quote)),
            None => Seq::empty(),
        }
    } else {
        Seq::empty()
    }
}

/// Whether a matcher accepts a candidate text.
pub open spec fn accepts(matcher: RuleMatcher, value: Seq<char>) -> bool {
    match matcher.equals {
        Some(expected) => value == expected@,
        None => match matcher.regex {
            Some(pattern) => pattern_accepts(pattern@, value),
            None => true,
        },
    }
}

/// The combinations that extend `combo` by one text of `bucket`, in the order
/// of the bucket.
pub open spec fn extend_one(combo: Seq<Seq<char>>, bucket: Seq<Seq<char>>) -> Seq<Seq<Seq<char>>>
    decreases bucket.len(),
{
    if bucket.len() == 0 {
        Seq::empty()
    } else {
        extend_one(combo, bucket.drop_last()).push(combo.push(bucket.last()))
    }
}

/// The combinations that extend each of `combos` by one text of `bucket`:
/// those of the first combination first.
pub open spec fn extend_all(combos: Seq<Seq<Seq<char>>>, bucket: Seq<Seq<char>>) -> Seq<
    Seq<Seq<char>>,
>
    decreases combos.len(),
{
    if combos.len() == 0 {
        Seq::empty()
    } else {
        extend_all(combos.drop_last(), bucket) + extend_one(combos.last(), bucket)
    }
}

/// The Cartesian product of `buckets`: every combination of one text from each
/// bucket, in the order of the buckets. The combinations are in lexicographic
/// order of the positions of their texts, so that the text of the last bucket
/// changes fastest. The product of no buckets is the one empty combination.
pub open spec fn product(buckets: Seq<Seq<Seq<char>>>) -> Seq<Seq<Seq<char>>>
    decreases buckets.len(),
{
    if buckets.len() == 0 {
        seq![Seq::empty()]
    } else {
        extend_all(product(buckets.drop_last()), buckets.last())
    }
}

/// Each combination of `combos`, joined with `separator`.
pub open spec fn joined(combos: Seq<Seq<Seq<char>>>, separator: Seq<char>) -> Seq<Seq<char>> {
    Seq::new(combos.len(), |i: int| join(combos[i], separator))
}

/// The bucket of each part: the texts that its expression selects.
pub open spec fn part_buckets(parts: Seq<MatchPart>, document: Seq<char>) -> Seq<Seq<Seq<char>>> {
    Seq::new(parts.len(), |i: int| node_texts(document, parts[i].jsonpath@))
}

/// The accepted candidates of a rule with parts: the combinations of one text
/// from the bucket of each part, joined with `separator`, that the matcher
/// accepts. A rule without any part has no candidate.
pub open spec fn parts_matches(
    parts: Seq<MatchPart>,
    separator: Seq<char>,
    matcher: RuleMatcher,
    document: Seq<char>,
) -> Seq<Seq<char>> {
    if parts.len() == 0 {
        Seq::empty()
    } else {
        kept(
            joined(product(part_buckets(parts, document)), separator),
            |value: Seq<char>| accepts(matcher, value),
        )
    }
}

/// The accepted candidates of a rule with one expression.
pub open spec fn jsonpath_matches(path: Seq<char>, matcher: RuleMatcher, document: Seq<char>) -> Seq<
    Seq<char>,
> {
    kept(node_texts(document, path), |value: Seq<char>| accepts(matcher, value))
}

/// The separator of a rule: the one it names, or `:`.
pub open spec fn separator_of(matcher: RuleMatcher) -> Seq<char> {
    match matcher.separator {
        Some(separator) => separator@,
        None => ":"@,
    }
}

/// The accepted candidates of a rule, before duplicates are removed.
pub open spec fn rule_matches(rule: YamlRule, document: Seq<char>) -> Seq<Seq<char>> {
    match rule.matcher.parts {
        Some(parts) => parts_matches(parts@, separator_of(rule.matcher), rule.matcher, document),
        None => match rule.matcher.jsonpath {
            Some(path) => jsonpath_matches(path@, rule.matcher, document),
            None => Seq::empty(),
        },
    }
}

/// The risk that the severity text of a rule stands for. The text is read
/// without regard to the case of ASCII letters. A rule without severity, or
/// with a text that names none, has the risk `Medium`.
pub open spec fn risk_named(severity: Option<Seq<char>>) -> RiskLevel {
    match severity {
        Some(text) => if ascii_upper(text) == "INFORMATIVE"@ || ascii_upper(text) == "INFO"@ {
            RiskLevel::Informative
        } else if ascii_upper(text) == "LOW"@ {
            RiskLevel::Low
        } else if ascii_upper(text) == "HIGH"@ || ascii_upper(text) == "CRITICAL"@ {
            RiskLevel::High
        } else {
            RiskLevel::Medium
        },
        None => RiskLevel::Medium,
    }
}

/// The description of a finding: the rule's message with every `{{match}}`
/// replaced by the matched text, followed by `: ` and the matched text where
/// the rule asks for it.
pub open spec fn description_for(rule: YamlRule, value: Seq<char>) -> Seq<char> {
    if rule.include_match_in_description {
        replace_all(rule.message@, "{{match}}"@, value) + ": "@ + value
    } else {
        replace_all(rule.message@, "{{match}}"@, value)
    }
}

/// The finding of a rule for one matched text. It has no line.
pub open spec fn finding_for(rule: YamlRule, value: Seq<char>, risk: RiskLevel) -> FindingView {
    FindingView { kind: rule.id@, description: description_for(rule, value), risk, line: None }
}

/// The text of an optional string.
pub open spec fn severity_text(severity: Option<String>) -> Option<Seq<char>> {
    match severity {
        Some(text) => Some(text@),
        None => None,
    }
}

/// The findings of a rule on a document: one for each distinct accepted
/// candidate, in the order of first occurrence.
pub open spec fn rule_findings(rule: YamlRule, document: Seq<char>) -> Seq<FindingView> {
    Seq::new(
        distinct(rule_matches(rule, document)).len(),
        |i: int|
            finding_for(
                rule,
                distinct(rule_matches(rule, document))[i],
                risk_named(severity_text(rule.severity)),
            ),
    )
}

/// The findings of `rules` on a document, rule by rule.
pub open spec fn engine_findings(rules: Seq<YamlRule>, document: Seq<char>) -> Seq<FindingView>
    decreases rules.len(),
{
    if rules.len() == 0 {
        Seq::empty()
    } else {
        engine_findings(rules.drop_last(), document) + rule_findings(rules.last(), document)
    }
}

/// The texts that `path` selects from `value`, each without the double quotes
/// at its ends.
pub fn select_node_texts(value: &Value, path: &str) -> (bucket: Vec<String>)
    ensures
        views(bucket@) == node_texts(json_text(*value), path@),
{
    let mut bucket: Vec<String> = Vec::new();
    if !is_safe_path(path) {
        assert(views(bucket@) =~= Seq::<Seq<char>>::empty());
        return bucket;
    }
    match select_texts(value, path) {
        Some(texts) => {
            let mut i: usize = 0;
            while i < texts.len()
                invariant
                    i <= texts.len(),
                    bucket@.len() == i,
                    forall|j: int|
                        0 <= j < i ==> (#[trigger] bucket@[j])@ == strip(
                            texts@[j]@,
                            CharClass::Quote,
                        ),
                decreases texts.len() - i,
            {
                bucket.push(strip_chars(texts[i].as_str(), CharClass::Quote));
                i += 1;
            }
            assert(views(bucket@) =~= node_texts(json_text(*value), path@));
            bucket
        },
        None => {
            assert(views(bucket@) =~= Seq::<Seq<char>>::empty());
            bucket
        },
    }
}

/// Whether the matcher accepts the candidate `value`.
pub fn matcher_matches(value: &str, matcher: &RuleMatcher) -> (b: bool)
    ensures
        b == accepts(*matcher, value@),
{
    match &matcher.equals {
        Some(expected) => same_text(value, expected.as_str()),
        None => match &matcher.regex {
            Some(pattern) => pattern_is_match(pattern.as_str(), value),
            None => true,
        },
    }
}

/// The texts of a list with one more list are the texts of the list with the
/// texts of that list appended.
proof fn lemma_text_lists_push(lists: Seq<Vec<String>>, list: Vec<String>)
    ensures
        text_lists(lists.push(list)) == text_lists(lists).push(views(list@)),
{
    assert(text_lists(lists.push(list)) =~= text_lists(lists).push(views(list@)));
}

/// The Cartesian product of `buckets`.
pub fn cartesian_product(buckets: &Vec<Vec<String>>) -> (combos: Vec<Vec<String>>)
    ensures
        text_lists(combos@) == product(text_lists(buckets@)),
{
    let mut combos: Vec<Vec<String>> = Vec::new();
    combos.push(Vec::new());
    proof {
        assert(text_lists(buckets@).take(0) =~= Seq::<Seq<Seq<char>>>::empty());
        assert(views(Seq::<String>::empty()) =~= Seq::<Seq<char>>::empty());
        assert(text_lists(combos@) =~= seq![Seq::<Seq<char>>::empty()]);
    }
    let mut b: usize = 0;
    while b < buckets.len()
        invariant
            b <= buckets.len(),
            text_lists(combos@) == product(text_lists(buckets@).take(b as int)),
        decreases buckets.len() - b,
    {
        let bucket = &buckets[b];
        proof {
            assert(text_lists(buckets@).take(b + 1).drop_last() =~= text_lists(buckets@).take(
                b as int,
            ));
            assert(text_lists(buckets@).take(b + 1).last() == views(bucket@));
        }
        let mut next: Vec<Vec<String>> = Vec::new();
        let mut c: usize = 0;
        proof {
            assert(text_lists(next@) =~= Seq::<Seq<Seq<char>>>::empty());
            assert(text_lists(combos@).take(0) =~= Seq::<Seq<Seq<char>>>::empty());
        }
        while c < combos.len()
            invariant
                c <= combos.len(),
                text_lists(next@) == extend_all(text_lists(combos@).take(c as int), views(bucket@)),
            decreases combos.len() - c,
        {
            let ghost done = extend_all(text_lists(combos@).take(c as int), views(bucket@));
            let ghost combo_texts = views(combos@[c as int]@);
            proof {
                assert(text_lists(combos@).take(c + 1).drop_last() =~= text_lists(combos@).take(
                    c as int,
                ));
                assert(text_lists(combos@).take(c + 1).last() == combo_texts);
                assert(views(bucket@).take(0) =~= Seq::<Seq<char>>::empty());
                assert(done + extend_one(combo_texts, views(bucket@).take(0)) =~= done);
            }
            let mut k: usize = 0;
            while k < bucket.len()
                invariant
                    k <= bucket.len(),
                    c < combos.len(),
                    combo_texts == views(combos@[c as int]@),
                    text_lists(next@) == done + extend_one(
                        combo_texts,
                        views(bucket@).take(k as int),
                    ),
                decreases bucket.len() - k,
            {
                let ghost before = next@;
                let ghost part = extend_one(combo_texts, views(bucket@).take(k as int));
                let mut combo = copy_strings(&combos[c]);
                let ghost copied = combo@;
                combo.push(bucket[k].clone());
                proof {
                    lemma_views_push(copied, bucket@[k as int]);
                    assert(views(bucket@).take(k + 1).drop_last() =~= views(bucket@).take(k as int));
                    assert(views(bucket@).take(k + 1).last() == bucket@[k as int]@);
                    lemma_text_lists_push(before, combo);
                }
                next.push(combo);
                proof {
                    assert((done + part).push(combo_texts.push(bucket@[k as int]@)) =~= done
                        + part.push(combo_texts.push(bucket@[k as int]@)));
                }
                k += 1;
            }
            assert(views(bucket@).take(bucket@.len() as int) =~= views(bucket@));
            c += 1;
        }
        assert(text_lists(combos@).take(combos@.len() as int) =~= text_lists(combos@));
        combos = next;
        b += 1;
    }
    assert(text_lists(buckets@).take(buckets@.len() as int) =~= text_lists(buckets@));
    combos
}

/// Extending combinations by a text of an empty bucket gives no combination.
proof fn lemma_extend_all_empty(combos: Seq<Seq<Seq<char>>>)
    ensures
        extend_all(combos, Seq::<Seq<char>>::empty()) == Seq::<Seq<Seq<char>>>::empty(),
    decreases combos.len(),
{
    if combos.len() > 0 {
        lemma_extend_all_empty(combos.drop_last());
        assert(extend_one(combos.last(), Seq::<Seq<char>>::empty()) =~= Seq::<
            Seq<Seq<char>>,
        >::empty());
        assert(Seq::<Seq<Seq<char>>>::empty() + Seq::<Seq<Seq<char>>>::empty() =~= Seq::<
            Seq<Seq<char>>,
        >::empty());
    }
}

/// Where one bucket is empty, the product holds no combination.
pub proof fn lemma_product_empty_bucket(buckets: Seq<Seq<Seq<char>>>, i: int)
    requires
        0 <= i < buckets.len(),
        buckets[i].len() == 0,
    ensures
        product(buckets) == Seq::<Seq<Seq<char>>>::empty(),
    decreases buckets.len(),
{
    if i == buckets.len() - 1 {
        assert(buckets.last() =~= Seq::<Seq<char>>::empty());
        lemma_extend_all_empty(product(buckets.drop_last()));
    } else {
        lemma_product_empty_bucket(buckets.drop_last(), i);
    }
}

/// Where the bucket of one part is empty, a rule with parts has no candidate,
/// whatever its condition.
pub proof fn lemma_empty_bucket_no_match(
    parts: Seq<MatchPart>,
    separator: Seq<char>,
    matcher: RuleMatcher,
    document: Seq<char>,
    i: int,
)
    requires
        0 <= i < parts.len(),
        node_texts(document, parts[i].jsonpath@).len() == 0,
    ensures
        parts_matches(parts, separator, matcher, document) == Seq::<Seq<char>>::empty(),
{
    lemma_product_empty_bucket(part_buckets(parts, document), i);
    assert(joined(product(part_buckets(parts, document)), separator) =~= Seq::<Seq<char>>::empty());
}

/// Every combination of `extend_one` is `combo` with one text of the bucket
/// appended, and every such extension is among them.
proof fn lemma_extend_one(combo: Seq<Seq<char>>, bucket: Seq<Seq<char>>)
    ensures
        extend_one(combo, bucket).len() == bucket.len(),
        forall|k: int|
            0 <= k < bucket.len() ==> #[trigger] extend_one(combo, bucket)[k] == combo.push(
                bucket[k],
            ),
    decreases bucket.len(),
{
    if bucket.len() > 0 {
        lemma_extend_one(combo, bucket.drop_last());
    }
}

/// Every combination of `extend_all` is a member of `combos` with one text of
/// the bucket appended. The lemma returns the positions of the two.
proof fn lemma_extend_all_sound(combos: Seq<Seq<Seq<char>>>, bucket: Seq<Seq<char>>, n: int) -> (w:
    (int, int))
    requires
        0 <= n < extend_all(combos, bucket).len(),
    ensures
        0 <= w.0 < combos.len(),
        0 <= w.1 < bucket.len(),
        extend_all(combos, bucket)[n] == combos[w.0].push(bucket[w.1]),
    decreases combos.len(),
{
    let before = extend_all(combos.drop_last(), bucket);
    lemma_extend_one(combos.last(), bucket);
    if n < before.len() {
        lemma_extend_all_sound(combos.drop_last(), bucket, n)
    } else {
        (combos.len() - 1, n - before.len())
    }
}

/// Every member of `combos` with one text of the bucket appended is a
/// combination of `extend_all`. The lemma returns its position.
proof fn lemma_extend_all_complete(
    combos: Seq<Seq<Seq<char>>>,
    bucket: Seq<Seq<char>>,
    c: int,
    k: int,
) -> (n: int)
    requires
        0 <= c < combos.len(),
        0 <= k < bucket.len(),
    ensures
        0 <= n < extend_all(combos, bucket).len(),
        extend_all(combos, bucket)[n] == combos[c].push(bucket[k]),
    decreases combos.len(),
{
    let before = extend_all(combos.drop_last(), bucket);
    lemma_extend_one(combos.last(), bucket);
    if c < combos.len() - 1 {
        lemma_extend_all_complete(combos.drop_last(), bucket, c, k)
    } else {
        before.len() + k
    }
}

/// The number of combinations of one text from each bucket: the product of
/// the sizes of the buckets.
pub open spec fn combination_count(buckets: Seq<Seq<Seq<char>>>) -> nat
    decreases buckets.len(),
{
    if buckets.len() == 0 {
        1
    } else {
        combination_count(buckets.drop_last()) * buckets.last().len()
    }
}

/// Extending each of some combinations by each text of a bucket gives as many
/// combinations as there are pairs of the two.
proof fn lemma_extend_all_len(combos: Seq<Seq<Seq<char>>>, bucket: Seq<Seq<char>>)
    ensures
        extend_all(combos, bucket).len() == combos.len() * bucket.len(),
    decreases combos.len(),
{
    if combos.len() > 0 {
        lemma_extend_all_len(combos.drop_last(), bucket);
        lemma_extend_one(combos.last(), bucket);
        assert((combos.len() - 1) * bucket.len() + bucket.len() == combos.len() * bucket.len())
            by (nonlinear_arith);
    } else {
        assert(0 * bucket.len() == 0) by (nonlinear_arith);
    }
}

/// The product holds as many combinations as the sizes of the buckets
/// multiply to.
pub proof fn lemma_product_len(buckets: Seq<Seq<Seq<char>>>)
    ensures
        product(buckets).len() == combination_count(buckets),
    decreases buckets.len(),
{
    if buckets.len() > 0 {
        lemma_product_len(buckets.drop_last());
        lemma_extend_all_len(product(buckets.drop_last()), buckets.last());
    }
}

/// Whether `combo` picks one text from each bucket, in the order of the
/// buckets.
pub open spec fn picks_from(combo: Seq<Seq<char>>, buckets: Seq<Seq<Seq<char>>>) -> bool {
    &&& combo.len() == buckets.len()
    &&& forall|j: int| 0 <= j < combo.len() ==> (#[trigger] buckets[j]).contains(combo[j])
}

/// Every combination of the product picks one text from each bucket.
pub proof fn lemma_product_sound(buckets: Seq<Seq<Seq<char>>>, n: int)
    requires
        0 <= n < product(buckets).len(),
    ensures
        picks_from(product(buckets)[n], buckets),
    decreases buckets.len(),
{
    if buckets.len() > 0 {
        let shorter = buckets.drop_last();
        let bucket = buckets.last();
        let (c, k) = lemma_extend_all_sound(product(shorter), bucket, n);
        lemma_product_sound(shorter, c);
        let head = product(shorter)[c];
        let combo = head.push(bucket[k]);
        assert forall|j: int| 0 <= j < combo.len() implies (#[trigger] buckets[j]).contains(
            combo[j],
        ) by {
            if j < head.len() {
                assert(shorter[j] == buckets[j]);
                assert(shorter[j].contains(head[j]));
            } else {
                assert(bucket[k] == combo[j]);
            }
        }
    }
}

/// Every combination that picks one text from each bucket is in the product.
/// The lemma returns its position.
pub proof fn lemma_product_complete(buckets: Seq<Seq<Seq<char>>>, combo: Seq<Seq<char>>) -> (n: int)
    requires
        picks_from(combo, buckets),
    ensures
        0 <= n < product(buckets).len(),
        product(buckets)[n] == combo,
    decreases buckets.len(),
{
    if buckets.len() == 0 {
        assert(combo =~= Seq::<Seq<char>>::empty());
        0
    } else {
        let shorter = buckets.drop_last();
        let bucket = buckets.last();
        let head = combo.drop_last();
        assert forall|j: int| 0 <= j < head.len() implies (#[trigger] shorter[j]).contains(
            head[j],
        ) by {
            assert(buckets[j].contains(combo[j]));
        }
        let c = lemma_product_complete(shorter, head);
        assert(buckets[buckets.len() - 1].contains(combo[combo.len() - 1]));
        let k = choose|k: int| 0 <= k < bucket.len() && bucket[k] == combo.last();
        assert(head.push(bucket[k]) =~= combo);
        lemma_extend_all_complete(product(shorter), bucket, c, k)
    }
}

/// A rule gives one finding for each distinct accepted candidate: as many
/// findings as there are different texts among its candidates.
pub proof fn lemma_one_finding_per_value(rule: YamlRule, document: Seq<char>)
    ensures
        rule_findings(rule, document).len() == rule_matches(rule, document).to_set().len(),
        distinct(rule_matches(rule, document)).no_duplicates(),
{
    let matches = rule_matches(rule, document);
    lemma_distinct(matches);
    distinct(matches).unique_seq_to_set();
}

/// Whether one of the strings of `list` holds the text `item`.
fn list_contains(list: &Vec<String>, item: &str) -> (b: bool)
    ensures
        b == views(list@).contains(item@),
{
    let mut i: usize = 0;
    while i < list.len()
        invariant
            i <= list.len(),
            forall|j: int| 0 <= j < i ==> (#[trigger] views(list@)[j]) != item@,
        decreases list.len() - i,
    {
        if same_text(list[i].as_str(), item) {
            assert(views(list@)[i as int] == item@);
            return true;
        }
        i += 1;
    }
    false
}

/// The strings of `items` without repetitions: each at the place of its first
/// occurrence.
pub fn dedup_texts(items: Vec<String>) -> (unique: Vec<String>)
    ensures
        views(unique@) == distinct(views(items@)),
{
    let mut unique: Vec<String> = Vec::new();
    let mut i: usize = 0;
    proof {
        assert(views(items@).take(0) =~= Seq::<Seq<char>>::empty());
        assert(views(unique@) =~= Seq::<Seq<char>>::empty());
    }
    while i < items.len()
        invariant
            i <= items.len(),
            views(unique@) == distinct(views(items@).take(i as int)),
        decreases items.len() - i,
    {
        proof {
            assert(views(items@).take(i + 1).drop_last() =~= views(items@).take(i as int));
            assert(views(items@).take(i + 1).last() == items@[i as int]@);
        }
        if !list_contains(&unique, items[i].as_str()) {
            proof {
                lemma_views_push(unique@, items@[i as int]);
            }
            unique.push(items[i].clone());
        }
        i += 1;
    }
    assert(views(items@).take(items@.len() as int) =~= views(items@));
    unique
}

/// The text of an optional borrowed text.
pub open spec fn borrowed_str(text: Option<&str>) -> Option<Seq<char>> {
    match text {
        Some(t) => Some(t@),
        None => None,
    }
}

/// The risk that the severity text of a rule stands for.
pub fn risk_from_severity(s: Option<&str>) -> (risk: RiskLevel)
    ensures
        risk == risk_named(borrowed_str(s)),
{
    proof {
        reveal_strlit("INFORMATIVE");
        reveal_strlit("INFO");
        reveal_strlit("LOW");
        reveal_strlit("HIGH");
        reveal_strlit("CRITICAL");
        assert(ascii_upper("INFORMATIVE"@) =~= "INFORMATIVE"@);
        assert(ascii_upper("INFO"@) =~= "INFO"@);
        assert(ascii_upper("LOW"@) =~= "LOW"@);
        assert(ascii_upper("HIGH"@) =~= "HIGH"@);
        assert(ascii_upper("CRITICAL"@) =~= "CRITICAL"@);
    }
    match s {
        Some(text) => {
            if eq_ignore_ascii_case(text, "INFORMATIVE") || eq_ignore_ascii_case(text, "INFO") {
                RiskLevel::Informative
            } else if eq_ignore_ascii_case(text, "LOW") {
                RiskLevel::Low
            } else if eq_ignore_ascii_case(text, "HIGH") || eq_ignore_ascii_case(text, "CRITICAL") {
                RiskLevel::High
            } else {
                RiskLevel::Medium
            }
        },
        None => RiskLevel::Medium,
    }
}

/// The finding of `rule` for the matched text `mv`.
pub fn to_finding(rule: &YamlRule, mv: &str, risk: RiskLevel) -> (finding: Finding)
    ensures
        finding@ == finding_for(*rule, mv@, risk),
{
    let replaced = substitute(rule.message.as_str(), "{{match}}", mv);
    let description = if rule.include_match_in_description {
        let mut out = chars_of(replaced.as_str());
        push_str_chars(&mut out, ": ");
        push_str_chars(&mut out, mv);
        string_of(&out)
    } else {
        replaced
    };
    Finding { kind: rule.id.clone(), description, risk, line: None }
}

impl View for YamlRuleEngine {
    type V = Seq<YamlRule>;

    closed spec fn view(&self) -> Seq<YamlRule> {
        self.rules@
    }
}

impl YamlRuleEngine {
    /// An engine with the rules `rules`.
    pub fn new(rules: Vec<YamlRule>) -> (engine: YamlRuleEngine)
        ensures
            engine@ == rules@,
    {
        YamlRuleEngine { rules }
    }

    /// The rules of the engine.
    pub fn rules(&self) -> (rules: &Vec<YamlRule>)
        ensures
            rules@ == self@,
    {
        &self.rules
    }

    /// The accepted candidates of a rule with parts.
    pub fn matches_from_parts(
        &self,
        parts: &[MatchPart],
        sep: &str,
        matcher: &RuleMatcher,
        value: &Value,
    ) -> (matches: Vec<String>)
        ensures
            views(matches@) == parts_matches(parts@, sep@, *matcher, json_text(*value)),
    {
        let mut matches: Vec<String> = Vec::new();
        assert(views(matches@) =~= Seq::<Seq<char>>::empty());
        if parts.len() == 0 {
            return matches;
        }
        let ghost document = json_text(*value);
        let mut buckets: Vec<Vec<String>> = Vec::new();
        let mut i: usize = 0;
        while i < parts.len()
            invariant
                i <= parts.len(),
                document == json_text(*value),
                buckets@.len() == i,
                forall|j: int|
                    0 <= j < i ==> views((#[trigger] buckets@[j])@) == node_texts(
                        document,
                        parts@[j].jsonpath@,
                    ),
            decreases parts.len() - i,
        {
            let bucket = select_node_texts(value, parts[i].jsonpath.as_str());
            buckets.push(bucket);
            i += 1;
        }
        assert(text_lists(buckets@) =~= part_buckets(parts@, document));
        let combos = cartesian_product(&buckets);
        let ghost candidates = joined(product(part_buckets(parts@, document)), sep@);
        let ghost keep = |candidate: Seq<char>| accepts(*matcher, candidate);
        let mut c: usize = 0;
        assert(candidates.take(0) =~= Seq::<Seq<char>>::empty());
        while c < combos.len()
            invariant
                c <= combos.len(),
                parts@.len() > 0,
                document == json_text(*value),
                text_lists(combos@) == product(part_buckets(parts@, document)),
                candidates == joined(product(part_buckets(parts@, document)), sep@),
                keep == (|candidate: Seq<char>| accepts(*matcher, candidate)),
                views(matches@) == kept(candidates.take(c as int), keep),
            decreases combos.len() - c,
        {
            proof {
                assert(candidates.take(c + 1).drop_last() =~= candidates.take(c as int));
                assert(candidates.take(c + 1).last() == join(views(combos@[c as int]@), sep@));
            }
            let combined = join_with(&combos[c], sep);
            if matcher_matches(combined.as_str(), matcher) {
                proof {
                    lemma_views_push(matches@, combined);
                }
                matches.push(combined);
            }
            c += 1;
        }
        assert(candidates.take(combos@.len() as int) =~= candidates);
        matches
    }

    /// The accepted candidates of a rule with one expression.
    pub fn matches_from_jsonpath(&self, expr: &str, matcher: &RuleMatcher, value: &Value) -> (matches:
        Vec<String>)
        ensures
            views(matches@) == jsonpath_matches(expr@, *matcher, json_text(*value)),
    {
        let texts = select_node_texts(value, expr);
        let ghost keep = |candidate: Seq<char>| accepts(*matcher, candidate);
        let mut matches: Vec<String> = Vec::new();
        let mut i: usize = 0;
        proof {
            assert(views(texts@).take(0) =~= Seq::<Seq<char>>::empty());
            assert(views(matches@) =~= Seq::<Seq<char>>::empty());
        }
        while i < texts.len()
            invariant
                i <= texts.len(),
                keep == (|candidate: Seq<char>| accepts(*matcher, candidate)),
                views(matches@) == kept(views(texts@).take(i as int), keep),
            decreases texts.len() - i,
        {
            proof {
                assert(views(texts@).take(i + 1).drop_last() =~= views(texts@).take(i as int));
                assert(views(texts@).take(i + 1).last() == texts@[i as int]@);
            }
            if matcher_matches(texts[i].as_str(), matcher) {
                proof {
                    lemma_views_push(matches@, texts@[i as int]);
                }
                matches.push(texts[i].clone());
            }
            i += 1;
        }
        assert(views(texts@).take(texts@.len() as int) =~= views(texts@));
        matches
    }

    /// The findings of one rule on a document.
    pub fn scan_with_rule(&self, rule: &YamlRule, value: &Value) -> (findings: Vec<Finding>)
        ensures
            finding_views(findings@) == rule_findings(*rule, json_text(*value)),
    {
        let matches = match &rule.matcher.parts {
            Some(parts) => {
                let sep = match &rule.matcher.separator {
                    Some(separator) => separator.as_str(),
                    None => ":",
                };
                self.matches_from_parts(parts.as_slice(), sep, &rule.matcher, value)
            },
            None => match &rule.matcher.jsonpath {
                Some(expr) => self.matches_from_jsonpath(expr.as_str(), &rule.matcher, value),
                None => {
                    let none: Vec<String> = Vec::new();
                    assert(views(none@) =~= Seq::<Seq<char>>::empty());
                    none
                },
            },
        };
        assert(views(matches@) == rule_matches(*rule, json_text(*value)));
        let unique = dedup_texts(matches);
        let severity = match &rule.severity {
            Some(text) => Some(text.as_str()),
            None => None,
        };
        let risk = risk_from_severity(severity);
        let mut findings: Vec<Finding> = Vec::new();
        let mut i: usize = 0;
        while i < unique.len()
            invariant
                i <= unique.len(),
                findings@.len() == i,
                risk == risk_named(severity_text(rule.severity)),
                forall|j: int|
                    0 <= j < i ==> (#[trigger] findings@[j])@ == finding_for(
                        *rule,
                        unique@[j]@,
                        risk,
                    ),
            decreases unique.len() - i,
        {
            findings.push(to_finding(rule, unique[i].as_str(), risk));
            i += 1;
        }
        assert(finding_views(findings@) =~= rule_findings(*rule, json_text(*value)));
        findings
    }

    /// The findings of all the rules of the engine on a document, rule by rule.
    pub fn scan_value(&self, value: &Value) -> (findings: Vec<Finding>)
        ensures
            finding_views(findings@) == engine_findings(self@, json_text(*value)),
    {
        let mut findings: Vec<Finding> = Vec::new();
        let mut i: usize = 0;
        proof {
            assert(finding_views(findings@) =~= Seq::<FindingView>::empty());
            assert(self.rules@.take(0) =~= Seq::<YamlRule>::empty());
        }
        while i < self.rules.len()
            invariant
                i <= self.rules.len(),
                finding_views(findings@) == engine_findings(
                    self.rules@.take(i as int),
                    json_text(*value),
                ),
            decreases self.rules.len() - i,
        {
            proof {
                assert(self.rules@.take(i + 1).drop_last() =~= self.rules@.take(i as int));
                assert(self.rules@.take(i + 1).last() == self.rules@[i as int]);
            }
            let found = self.scan_with_rule(&self.rules[i], value);
            crate::detectors::dockerfile::scanner::extend_findings(&mut findings, found);
            i += 1;
        }
        assert(self.rules@.take(self.rules@.len() as int) =~= self.rules@);
        findings
    }
}

} // verus!
