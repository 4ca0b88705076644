use valeris::detectors::runtime::jsonpath::is_safe_path;
use valeris::detectors::runtime::yaml_rules::{
    cartesian_product, dedup_texts, matcher_matches, risk_from_severity,
    select_node_texts, to_finding, MatchPart, RuleMatcher, YamlRule, YamlRuleEngine,
};
use valeris::docker::model::RiskLevel;

fn plain_matcher() -> RuleMatcher {
    RuleMatcher {
        parts: None,
        separator: None,
        equals: None,
        regex: None,
        jsonpath: None,
    }
}

fn rule_with(matcher: RuleMatcher, message: &str, severity: Option<&str>, with_match: bool) -> YamlRule {
    YamlRule {
        id: "ID".into(),
        name: None,
        target: None,
        severity: severity.map(|s| s.to_string()),
        description: None,
        references: vec![],
        matcher,
        message: message.into(),
        fix: None,
        include_match_in_description: with_match,
    }
}

fn json(text: &str) -> serde_json::Value {
    serde_json::from_str(text).unwrap()
}

fn texts(items: &[&str]) -> Vec<String> {
    items.iter().map(|s| s.to_string()).collect()
}

#[test]
fn matcher_matches_with_equals() {
    let matcher = RuleMatcher {
        parts: None,
        separator: None,
        equals: Some("abc".to_string()),
        regex: None,
        jsonpath: None,
    };
    assert!(matcher_matches("abc", &matcher));
    assert!(!matcher_matches("abcd", &matcher));
}

#[test]
fn matcher_matches_with_regex() {
    let matcher = RuleMatcher {
        parts: None,
        separator: None,
        equals: None,
        regex: Some("^foo.*".to_string()),
        jsonpath: None,
    };
    assert!(matcher_matches("foobar", &matcher));
    assert!(!matcher_matches("bar", &matcher));
}

#[test]
fn risk_from_severity_unknown_defaults_medium() {
    assert_eq!(risk_from_severity(Some("CUSTOM")), RiskLevel::Medium);
    assert_eq!(risk_from_severity(None), RiskLevel::Medium);
    assert_eq!(risk_from_severity(Some("low")), RiskLevel::Low);
}

#[test]
fn to_finding_includes_match_when_flag_set() {
    let rule = YamlRule {
        id: "ID".into(),
        name: None,
        target: None,
        severity: Some("info".into()),
        description: None,
        references: vec![],
        matcher: RuleMatcher {
            parts: None,
            separator: None,
            equals: None,
            regex: None,
            jsonpath: None,
        },
        message: "found {{match}}".into(),
        fix: None,
        include_match_in_description: true,
    };

    let finding = to_finding(&rule, "VALUE", RiskLevel::Informative);
    assert_eq!(finding.kind, "ID");
    assert!(finding.description.contains("VALUE"));
}

#[test]
fn to_finding_builds_the_exact_description() {
    let with = rule_with(plain_matcher(), "a {{match}} b {{match}}", None, true);
    let finding = to_finding(&with, "X", RiskLevel::High);
    assert_eq!(finding.description, "a X b X: X");
    assert_eq!(finding.risk, RiskLevel::High);
    assert_eq!(finding.line, None);
    let without = rule_with(plain_matcher(), "no placeholder", None, false);
    assert_eq!(to_finding(&without, "X", RiskLevel::Low).description, "no placeholder");
    let partial = rule_with(plain_matcher(), "{{match}{{match}}}", None, false);
    assert_eq!(to_finding(&partial, "v", RiskLevel::Low).description, "{{match}v}");
}

#[test]
fn severity_aliases_are_read_in_any_case() {
    assert_eq!(risk_from_severity(Some("info")), RiskLevel::Informative);
    assert_eq!(risk_from_severity(Some("Informative")), RiskLevel::Informative);
    assert_eq!(risk_from_severity(Some("LOW")), RiskLevel::Low);
    assert_eq!(risk_from_severity(Some("medium")), RiskLevel::Medium);
    assert_eq!(risk_from_severity(Some("High")), RiskLevel::High);
    assert_eq!(risk_from_severity(Some("critical")), RiskLevel::High);
    assert_eq!(risk_from_severity(Some("")), RiskLevel::Medium);
    assert_eq!(risk_from_severity(Some("highest")), RiskLevel::Medium);
}

#[test]
fn matcher_without_condition_accepts_everything() {
    assert!(matcher_matches("anything", &plain_matcher()));
    assert!(matcher_matches("", &plain_matcher()));
}

#[test]
fn equals_wins_over_regex() {
    let matcher = RuleMatcher {
        parts: None,
        separator: None,
        equals: Some("abc".to_string()),
        regex: Some("^z".to_string()),
        jsonpath: None,
    };
    assert!(matcher_matches("abc", &matcher));
    assert!(!matcher_matches("zzz", &matcher));
}

#[test]
fn regex_that_does_not_compile_matches_nothing() {
    let matcher = RuleMatcher {
        parts: None,
        separator: None,
        equals: None,
        regex: Some("(unclosed".to_string()),
        jsonpath: None,
    };
    assert!(!matcher_matches("(unclosed", &matcher));
    assert!(!matcher_matches("", &matcher));
}

#[test]
fn product_of_the_two_buckets() {
    let buckets = vec![texts(&["nginx"]), texts(&["1.20", "latest"])];
    let combos = cartesian_product(&buckets);
    assert_eq!(combos, vec![texts(&["nginx", "1.20"]), texts(&["nginx", "latest"])]);
}

#[test]
fn product_runs_the_last_bucket_fastest() {
    let buckets = vec![texts(&["a", "b"]), texts(&["1", "2", "3"])];
    let combos = cartesian_product(&buckets);
    assert_eq!(
        combos,
        vec![
            texts(&["a", "1"]),
            texts(&["a", "2"]),
            texts(&["a", "3"]),
            texts(&["b", "1"]),
            texts(&["b", "2"]),
            texts(&["b", "3"]),
        ]
    );
}

#[test]
fn product_with_an_empty_bucket_is_empty() {
    assert!(cartesian_product(&vec![texts(&["a"]), texts(&[])]).is_empty());
    assert!(cartesian_product(&vec![texts(&[]), texts(&["a"])]).is_empty());
    let none: Vec<Vec<String>> = vec![];
    assert_eq!(cartesian_product(&none), vec![texts(&[])]);
}

#[test]
fn multi_part_rule_combines_image_and_tag() {
    let engine = YamlRuleEngine::new(vec![]);
    let doc = json(r#"{"image":"nginx","tags":["1.20","latest"],"none":[]}"#);
    let parts = vec![
        MatchPart { jsonpath: "$.image".to_string() },
        MatchPart { jsonpath: "$.tags[*]".to_string() },
    ];
    let found = engine.matches_from_parts(&parts, ":", &plain_matcher(), &doc);
    assert_eq!(found, texts(&["nginx:1.20", "nginx:latest"]));

    let only_latest = RuleMatcher { regex: Some(":latest$".to_string()), ..plain_matcher() };
    let found = engine.matches_from_parts(&parts, ":", &only_latest, &doc);
    assert_eq!(found, texts(&["nginx:latest"]));

    let with_empty = vec![
        MatchPart { jsonpath: "$.image".to_string() },
        MatchPart { jsonpath: "$.none[*]".to_string() },
    ];
    assert!(engine.matches_from_parts(&with_empty, ":", &plain_matcher(), &doc).is_empty());
    let empty_first = vec![
        MatchPart { jsonpath: "$.missing".to_string() },
        MatchPart { jsonpath: "$.tags[*]".to_string() },
    ];
    assert!(engine.matches_from_parts(&empty_first, ":", &plain_matcher(), &doc).is_empty());
    let no_parts: Vec<MatchPart> = vec![];
    assert!(engine.matches_from_parts(&no_parts, ":", &plain_matcher(), &doc).is_empty());
}

#[test]
fn rule_uses_its_separator_or_a_colon() {
    let engine = YamlRuleEngine::new(vec![]);
    let doc = json(r#"{"a":"x","b":"y"}"#);
    let parts = Some(vec![
        MatchPart { jsonpath: "$.a".to_string() },
        MatchPart { jsonpath: "$.b".to_string() },
    ]);
    let default_sep = rule_with(
        RuleMatcher { parts, ..plain_matcher() },
        "{{match}}",
        Some("low"),
        false,
    );
    let findings = engine.scan_with_rule(&default_sep, &doc);
    assert_eq!(findings.len(), 1);
    assert_eq!(findings[0].description, "x:y");
    assert_eq!(findings[0].risk, RiskLevel::Low);

    let parts = Some(vec![
        MatchPart { jsonpath: "$.a".to_string() },
        MatchPart { jsonpath: "$.b".to_string() },
    ]);
    let custom = rule_with(
        RuleMatcher { parts, separator: Some(" -> ".to_string()), ..plain_matcher() },
        "{{match}}",
        None,
        false,
    );
    let findings = engine.scan_with_rule(&custom, &doc);
    assert_eq!(findings[0].description, "x -> y");
    assert_eq!(findings[0].risk, RiskLevel::Medium);
}

#[test]
fn equal_values_give_one_finding() {
    let engine = YamlRuleEngine::new(vec![]);
    let doc = json(r#"{"ports":[{"ip":"0.0.0.0"},{"ip":"0.0.0.0"},{"ip":"127.0.0.1"},{"ip":"0.0.0.0"}]}"#);
    let rule = rule_with(
        RuleMatcher { jsonpath: Some("$.ports[*].ip".to_string()), ..plain_matcher() },
        "bound to {{match}}",
        Some("high"),
        false,
    );
    let findings = engine.scan_with_rule(&rule, &doc);
    assert_eq!(findings.len(), 2);
    assert_eq!(findings[0].description, "bound to 0.0.0.0");
    assert_eq!(findings[1].description, "bound to 127.0.0.1");
    assert_eq!(findings[0].kind, "ID");
    assert_eq!(findings[0].line, None);
}

#[test]
fn dedup_keeps_first_occurrences_in_order() {
    assert_eq!(dedup_texts(texts(&["b", "a", "b", "c", "a"])), texts(&["b", "a", "c"]));
    assert_eq!(dedup_texts(texts(&[])), texts(&[]));
}

#[test]
fn selected_nodes_are_written_without_quotes() {
    let doc = json(r#"{"s":"text","n":5,"b":true,"z":null,"o":{"k":"v"},"q":"\"in\""}"#);
    assert_eq!(select_node_texts(&doc, "$.s"), texts(&["text"]));
    assert_eq!(select_node_texts(&doc, "$.n"), texts(&["5"]));
    assert_eq!(select_node_texts(&doc, "$.b"), texts(&["true"]));
    assert_eq!(select_node_texts(&doc, "$.z"), texts(&["null"]));
    assert_eq!(select_node_texts(&doc, "$.o"), texts(&["{\"k\":\"v\"}"]));
    assert_eq!(select_node_texts(&doc, "$.q"), texts(&["\\\"in\\"]));
    assert_eq!(select_node_texts(&doc, "$.absent"), texts(&[]));
}

#[test]
fn filters_and_slices_are_evaluated() {
    let doc = json(
        r#"{"a":[1,2,3,4],
            "Mounts":[{"Type":"bind","Source":"/x","RW":true,"n":5},
                      {"Type":"volume","Source":"/y","RW":false,"n":7},
                      {"Source":"/z"}],
            "a:b":1,"c?":2,"limit":6}"#,
    );
    for path in [
        "$.a[0:2]",
        "$.a[1:]",
        "$.a[0:4:2]",
        "$.a[?(@ > 2)]",
        "$.Mounts[?(@.n > 5)].n",
        "$.Mounts[?(@.Type == 'bind')].Source",
        "$.Mounts[?(@.Type != \"bind\")].Source",
        "$.Mounts[?( @.RW == true )].Source",
        "$.Mounts[?(@.n >= 6)].Source",
        "$.Mounts[?(@.n<5.5)].Source",
        "$.Mounts[?(@.Type)].Source",
        "$.Mounts[?(@.Type == 'bind' && @.RW == true)].Source",
        "$.Mounts[?(@.n > 6 || @.Type == 'bind')].Source",
        "$.Mounts[?(@.Type && @.n < 6)].Source",
        "$.Mounts[?((@.n > 6) || (@.Type == 'bind'))].Source",
        "$.Mounts[?(@.Type == 'volume' || (@.RW == true && @.n < 6))].Source",
        "$.Mounts[?((@.Type == 'volume' || @.RW == true) && @.n < 6)].Source",
        "$.Mounts[?(5 < @.n)].Source",
        "$.Mounts[?('bind' == @.Type)].Source",
        "$.Mounts[ ?(@.Type)].Source",
        "$.Mounts[?(@.n == @.n)].Source",
        "$.Mounts[?(1 == 1)].Source",
        "$.Mounts[?(1 == 2)].Source",
        "$.Mounts[?(@['Type'] == 'bind')].Source",
        "$.Mounts[?(@[ \"Type\" ])].Source",
        "$.Mounts[?(@.n > $['c?'])].Source",
        "$.Mounts[?(@.n > $.limit)].Source",
        "$.Mounts[?($.limit <= @.n)].Source",
        "$.Mounts[?($.limit == $.limit && @.RW == false)].Source",
        "$['a:b']",
        "$[\"c?\"]",
    ] {
        assert!(is_safe_path(path), "{path}");
    }
    let expected: Vec<(&str, Vec<&str>)> = vec![
        ("$.a[0:2]", vec!["1", "2"]),
        ("$.a[1:]", vec!["2", "3", "4"]),
        ("$.a[0:4:2]", vec!["1", "3"]),
        ("$.Mounts[?(@.n > 5)].n", vec!["7"]),
        ("$.Mounts[?(@.Type == 'bind')].Source", vec!["/x"]),
        ("$.Mounts[?(@.Type != \"bind\")].Source", vec!["/y"]),
        ("$.Mounts[?( @.RW == true )].Source", vec!["/x"]),
        ("$.Mounts[?(@.n >= 6)].Source", vec!["/y"]),
        ("$.Mounts[?(@.n<5.5)].Source", vec!["/x"]),
        ("$.Mounts[?(@.Type)].Source", vec!["/x", "/y"]),
        ("$.Mounts[?(@.Type == 'bind' && @.RW == true)].Source", vec!["/x"]),
        ("$.Mounts[?(@.n > 6 || @.Type == 'bind')].Source", vec!["/y", "/x"]),
        ("$.Mounts[?(@.Type && @.n < 6)].Source", vec!["/x"]),
        ("$.Mounts[?((@.n > 6) || (@.Type == 'bind'))].Source", vec!["/y", "/x"]),
        ("$.Mounts[?(@.Type == 'volume' || (@.RW == true && @.n < 6))].Source", vec!["/y", "/x"]),
        ("$.Mounts[?((@.Type == 'volume' || @.RW == true) && @.n < 6)].Source", vec!["/x"]),
        ("$.Mounts[?(5 < @.n)].Source", vec!["/y"]),
        ("$.Mounts[?('bind' == @.Type)].Source", vec!["/x"]),
        ("$.Mounts[ ?(@.Type)].Source", vec!["/x", "/y"]),
        ("$.Mounts[?(@.n == @.n)].Source", vec!["/x", "/y"]),
        ("$.Mounts[?(1 == 1)].Source", vec![]),
        ("$.Mounts[?(1 == 2)].Source", vec![]),
        ("$.Mounts[?(@['Type'] == 'bind')].Source", vec!["/x"]),
        ("$.Mounts[?(@[ \"Type\" ])].Source", vec!["/x", "/y"]),
        ("$.Mounts[?(@.n > $['c?'])].Source", vec!["/x", "/y"]),
        ("$.Mounts[?(@.n > $.limit)].Source", vec!["/y"]),
        ("$.Mounts[?($.limit <= @.n)].Source", vec!["/y"]),
        ("$.Mounts[?($.limit == $.limit && @.RW == false)].Source", vec![]),
        ("$['a:b']", vec!["1"]),
        ("$[\"c?\"]", vec!["2"]),
    ];
    let other: Vec<(&str, Vec<String>)> = expected
        .iter()
        .map(|(path, _)| (*path, select_node_texts(&doc, path)))
        .zip(expected.iter())
        .filter(|((_, found), (_, wanted))| *found != texts(wanted))
        .map(|(found, _)| found)
        .collect();
    assert_eq!(other, Vec::<(&str, Vec<String>)>::new());
    assert_eq!(select_node_texts(&doc, "not a path"), texts(&[]));
}

#[test]
fn rule_with_a_filter_fires() {
    let engine = YamlRuleEngine::new(vec![]);
    let doc = json(r#"{"Mounts":[{"Type":"bind","Source":"/var/run/docker.sock"},{"Type":"volume","Source":"v"}]}"#);
    let rule = rule_with(
        RuleMatcher {
            jsonpath: Some("$.Mounts[?(@.Type == 'bind')].Source".to_string()),
            ..plain_matcher()
        },
        "bind mount of {{match}}",
        Some("high"),
        false,
    );
    let findings = engine.scan_with_rule(&rule, &doc);
    assert_eq!(findings.len(), 1);
    assert_eq!(findings[0].description, "bind mount of /var/run/docker.sock");
}

#[test]
fn expressions_that_may_stop_the_program_select_nothing() {
    let doc = json(r#"{"a":[1,2,3],"b":[{"c":1,"d":2}]}"#);
    for path in [
        "$.a[0:2:0]",
        "$.a[::0]",
        "$.a[:2: 00]",
        "$.a[0:2:+0]",
        "$.b[?(@['c','d'])]",
        "$.b[?(@.c[0:1])]",
        "$.b[?(@.c[0,1])]",
        "$.b[?(@.c == 1 & @.d == 2)]",
        "$.b[?((@.c == 1) && @.d == 2]",
        "$.b[?(@.c == 1) && @.d == 2)]",
        "$.b[?(() && @.d == 2)]",
        "$.b[?(@.c[0] == 1)]",
        "$.b[?(@..c == 1)]",
        "$.b[?(@.* == 1)]",
        "$.b[?(@.c == $.a[0])]",
        "$.b[?($.a == 1)]",
        "$.b[?($.a == 'x' && @.c)]",
        "$.b[?(@.c && $.a)]",
        "$.b[?(@['c','d'] == 1)]",
        "$.b[?(@[0] == 1)]",
        "$.b[?(@['c' == 1)]",
        "$.b[?(@.c == 1 &&)]",
        "$.b[?(@.c == -inf)]",
        "$.b[?(@.c == 1e999)]",
        "$.b[?(@.c == 1234567890123456)]",
        "$.b[?($.a)]",
        "$.b[?(@.c == )]",
        "$.b[?(== 1)]",
        "$.b[?(@.c == 'x', 'y')]",
        "$.b[?(@.c == 'x')",
        "$.b[? (@.c)]",
        "$.a\\b",
        "$['a",
        "$.a?",
        "$.a = 1",
    ] {
        assert!(!is_safe_path(path), "{path}");
        assert_eq!(select_node_texts(&doc, path), texts(&[]), "{path}");
    }
    // a colon or a question mark in a key does not make a slice or a filter
    assert!(is_safe_path("$.it's[?(@.a)]"));
    assert!(!is_safe_path("$.it's[?(@.a"));
    assert!(is_safe_path("$.a:b:0"));
    assert!(is_safe_path("$.a[0:0]"));
    assert!(is_safe_path("$.a[0:1:]"));
    assert!(is_safe_path("$.a[0:1:10]"));
    assert!(is_safe_path(""));
}

/// A small generator of numbers, the same on every run.
fn next_number(state: &mut u64) -> usize {
    *state = state.wrapping_mul(6364136223846793005).wrapping_add(1442695040888963407);
    (*state >> 33) as usize
}

#[test]
fn accepted_expressions_are_evaluated_to_the_end() {
    let pieces = [
        "$", ".", "..", "*", "[", "]", "[?(", ")]", "(", ")", "@", "@.a", "@.b.c", "?", ",", ":",
        "::", " ", "a", "b", "c", "0", "1", "-1", "00", "+0", "2.5", "true", "false", "'a'",
        "\"b\"", "'", "\"", "==", "!=", "<", "<=", ">", ">=", "&&", "||", "!", "=", "$.a",
        "[*]", "[0]", "['a','b']", "[0,1]", "[0:2]", "[1:3:2]", "[?(@.a == 1)]", "[?(@.b)]",
        "[?(@ > 'a')]", "[?(@.a<=2.5)]", "[?(@.c != true )]", "[?(@.a == 1 && @.b)]",
        "[?(@.b || @.a != 'a')]", " && ", " || ", "@.a == 1", "@.b != 'a'", "x'", "$'q", "y\"z",
        "[ ?(", "[?((", "))]", "1 == @.a", "'a' != @.b", "@.a == @.b", "@ == @", "true == @.c",
        "[?((@.a == 1) && @.b)]", "[?(@.a || (@.b && @.c == true))]", "[?('a' == 'a')]",
        "[?(1 < 2)]", "[?(@.b.c >= @.a)]", "[?((@.a))]", "[?(2.5 > @ || (@ == 'a'))]",
        "$.b", "$['a']", "@['b']", "['c']", "[ 'a' ]", "[?(@.a == $.b.a)]", "[?($.b.c != @.b)]",
        "[?($ == $)]", "[?(@['a'] < $['b']['a'])]", "[?(1 == $.c)]", "[?($.a == @)]",
    ];
    let docs = [
        json(r#"{"a":[1,2,[3,{"a":1,"b":{"c":true}}]],"b":{"c":"x","a":2.5},"c":null}"#),
        json(r#"[{"a":1,"b":"a"},{"a":"1","b":{"c":false}},[0,1,2,3],"a",true,null,2.5]"#),
        json(r#""text""#),
    ];
    let mut state: u64 = 42;
    let mut accepted = 0;
    let mut with_filter = 0;
    for _ in 0..120_000 {
        let count = 1 + next_number(&mut state) % 9;
        let mut path = String::from("$");
        for _ in 0..count {
            path.push_str(pieces[next_number(&mut state) % pieces.len()]);
        }
        if is_safe_path(&path) {
            accepted += 1;
            if path.contains("[?(") {
                with_filter += 1;
            }
            for doc in &docs {
                let _ = select_node_texts(doc, &path);
            }
        }
    }
    assert!(accepted > 1000);
    assert!(with_filter > 100);
}

#[test]
fn accepted_characters_are_evaluated_to_the_end() {
    let alphabet: Vec<char> = "$$..**[[]](@?,::'\"'\" \ta0011-+,xe".chars().collect();
    let docs = [
        json(r#"{"a":[0,1,[2,3]],"0":{"a":"x","1":[4,5,6,7]},"x":{"x":{"a":[8]}}}"#),
        json(r#"[[0,1,2],{"a":[3,4]},"a",[[5],[6,7]]]"#),
    ];
    let mut state: u64 = 7;
    let mut accepted = 0;
    for _ in 0..150_000 {
        let count = next_number(&mut state) % 11;
        let mut path = String::from("$");
        for _ in 0..count {
            path.push(alphabet[next_number(&mut state) % alphabet.len()]);
        }
        if is_safe_path(&path) {
            accepted += 1;
            for doc in &docs {
                let _ = select_node_texts(doc, &path);
            }
        }
    }
    assert!(accepted > 1000);
}

#[test]
fn accepted_filters_are_evaluated_to_the_end() {
    let alphabet: Vec<char> = "@@@$...aabc(())[]&&||==!<> 12'\"-tf".chars().collect();
    let words = [
        "@.a", "@.b.c", "@", " == ", " && ", " || ", "true", "false", "'a'", "1", "(", ")", "$.a",
        "$.b.c", "$", "['a']", "[\"b\"]", " != ", " < ",
    ];
    let docs = [
        json(r#"{"a":[1,2,[3,{"a":1,"b":{"c":true}}]],"b":{"c":"x","a":2.5},"c":null}"#),
        json(r#"[{"a":1,"b":"a"},{"a":"1","b":{"c":false}},{"a":1,"b":1},[0,1,2,3],"a",true,1]"#),
    ];
    let fronts = ["$[?(", "$.a[?(", "$..[?(", "$.*[?(", "$..a[?(", "$[*][ ?("];
    let backs = [")]", ")].a", ")][0]", ")]..b", ")][0:1]", ")][?(@.a)]"];
    let mut state: u64 = 2024;
    let mut accepted = 0;
    let mut grouped = 0;
    let mut rooted = 0;
    for _ in 0..150_000 {
        let mut path = String::from(fronts[next_number(&mut state) % fronts.len()]);
        let count = 1 + next_number(&mut state) % 8;
        for _ in 0..count {
            if next_number(&mut state) % 3 == 0 {
                path.push(alphabet[next_number(&mut state) % alphabet.len()]);
            } else {
                path.push_str(words[next_number(&mut state) % words.len()]);
            }
        }
        path.push_str(backs[next_number(&mut state) % backs.len()]);
        if is_safe_path(&path) {
            accepted += 1;
            if path.matches('(').count() > 1 {
                grouped += 1;
            }
            if path[1..].contains('$') {
                rooted += 1;
            }
            for doc in &docs {
                let _ = select_node_texts(doc, &path);
            }
        }
    }
    assert!(accepted > 1000);
    assert!(grouped > 100);
    assert!(rooted > 100);
}

#[test]
fn rule_without_selection_finds_nothing() {
    let engine = YamlRuleEngine::new(vec![]);
    let doc = json(r#"{"a":1}"#);
    let rule = rule_with(plain_matcher(), "m", None, false);
    assert!(engine.scan_with_rule(&rule, &doc).is_empty());
}

#[test]
fn engine_runs_its_rules_in_order() {
    let first = rule_with(
        RuleMatcher { jsonpath: Some("$.a".to_string()), ..plain_matcher() },
        "first {{match}}",
        Some("INFO"),
        false,
    );
    let second = rule_with(
        RuleMatcher {
            jsonpath: Some("$.b".to_string()),
            equals: Some("no".to_string()),
            ..plain_matcher()
        },
        "second",
        None,
        false,
    );
    let third = rule_with(
        RuleMatcher { jsonpath: Some("$.b".to_string()), ..plain_matcher() },
        "third",
        Some("critical"),
        true,
    );
    let engine = YamlRuleEngine::new(vec![first, second, third]);
    assert_eq!(engine.rules().len(), 3);
    let findings = engine.scan_value(&json(r#"{"a":1,"b":"yes"}"#));
    assert_eq!(findings.len(), 2);
    assert_eq!(findings[0].description, "first 1");
    assert_eq!(findings[0].risk, RiskLevel::Informative);
    assert_eq!(findings[1].description, "third: yes");
    assert_eq!(findings[1].risk, RiskLevel::High);
}
