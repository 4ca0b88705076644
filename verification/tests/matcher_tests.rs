use valeris::detectors::dockerfile::context::Context;
use valeris::detectors::dockerfile::matcher::{
    matches_field_conditions, matches_matcher, matches_predicate,
};
use valeris::detectors::dockerfile::yaml_rules::{Matcher, Predicate};
use valeris::pattern::{glob_match, glob_to_regex, pattern_is_match};

fn context_of(entries: &[(&str, &str)]) -> Context {
    let mut context = Context::new();
    for (key, value) in entries {
        context.insert(key.to_string(), value.to_string());
    }
    context
}

fn empty_matcher() -> Matcher {
    Matcher {
        all: None,
        any: None,
        field: None,
        equals: None,
        regex: None,
        glob: None,
        missing: None,
    }
}

fn equals_predicate(field: &str, value: &str) -> Predicate {
    Predicate {
        field: Some(field.to_string()),
        equals: Some(value.to_string()),
        regex: None,
        glob: None,
        missing: None,
    }
}

#[test]
fn test_glob_match_wildcard() {
    assert!(glob_match("*.txt", "file.txt"));
    assert!(glob_match("test*", "test123"));
    assert!(!glob_match("*.txt", "file.doc"));
}

#[test]
fn test_glob_match_question_mark() {
    assert!(glob_match("file?.txt", "file1.txt"));
    assert!(glob_match("file?.txt", "fileX.txt"));
    assert!(!glob_match("file?.txt", "file12.txt"));
}

#[test]
fn test_glob_match_literal_dot() {
    assert!(glob_match("file.txt", "file.txt"));
    assert!(!glob_match("file.txt", "fileXtxt"));
}

#[test]
fn test_matches_field_conditions_equals() {
    let mut context = Context::new();
    context.insert("user".to_string(), "root".to_string());

    let result = matches_field_conditions(
        "user",
        &context,
        Some(&"root".to_string()),
        None,
        None,
        None,
    );

    assert!(result);
}

#[test]
fn test_matches_field_conditions_equals_mismatch() {
    let mut context = Context::new();
    context.insert("user".to_string(), "nobody".to_string());

    let result = matches_field_conditions(
        "user",
        &context,
        Some(&"root".to_string()),
        None,
        None,
        None,
    );

    assert!(!result);
}

#[test]
fn test_matches_field_conditions_regex() {
    let mut context = Context::new();
    context.insert("port".to_string(), "22".to_string());

    let regex = regex::Regex::new("^(22|3306|5432)$").unwrap();
    let result = matches_field_conditions("port", &context, None, Some(&regex), None, None);

    assert!(result);
}

#[test]
fn test_matches_field_conditions_regex_no_match() {
    let mut context = Context::new();
    context.insert("port".to_string(), "8080".to_string());

    let regex = regex::Regex::new("^(22|3306|5432)$").unwrap();
    let result = matches_field_conditions("port", &context, None, Some(&regex), None, None);

    assert!(!result);
}

#[test]
fn test_matches_field_conditions_missing_true() {
    let context = Context::new();

    let result = matches_field_conditions(
        "some_field",
        &context,
        None,
        None,
        None,
        Some(true), // Field should be missing
    );

    assert!(result);
}

#[test]
fn test_matches_field_conditions_missing_false() {
    let mut context = Context::new();
    context.insert("field".to_string(), "value".to_string());

    let result = matches_field_conditions(
        "field",
        &context,
        None,
        None,
        None,
        Some(true), // Field should be missing but it's present
    );

    assert!(!result);
}

#[test]
fn test_matches_matcher_with_field_equals() {
    let mut context = Context::new();
    context.insert("user".to_string(), "root".to_string());

    let matcher = Matcher {
        all: None,
        any: None,
        field: Some("user".to_string()),
        equals: Some("root".to_string()),
        regex: None,
        glob: None,
        missing: None,
    };

    assert!(matches_matcher(&matcher, &context));
}

#[test]
fn test_matches_matcher_with_all_predicates() {
    let mut context = Context::new();
    context.insert("user".to_string(), "root".to_string());
    context.insert("status".to_string(), "running".to_string());

    let matcher = Matcher {
        all: Some(vec![
            Predicate {
                field: Some("user".to_string()),
                equals: Some("root".to_string()),
                regex: None,
                glob: None,
                missing: None,
            },
            Predicate {
                field: Some("status".to_string()),
                equals: Some("running".to_string()),
                regex: None,
                glob: None,
                missing: None,
            },
        ]),
        any: None,
        field: None,
        equals: None,
        regex: None,
        glob: None,
        missing: None,
    };

    assert!(matches_matcher(&matcher, &context));
}

#[test]
fn test_matches_matcher_with_any_predicates() {
    let mut context = Context::new();
    context.insert("port".to_string(), "22".to_string());

    let matcher = Matcher {
        all: None,
        any: Some(vec![
            Predicate {
                field: Some("port".to_string()),
                equals: Some("22".to_string()),
                regex: None,
                glob: None,
                missing: None,
            },
            Predicate {
                field: Some("port".to_string()),
                equals: Some("3306".to_string()),
                regex: None,
                glob: None,
                missing: None,
            },
        ]),
        field: None,
        equals: None,
        regex: None,
        glob: None,
        missing: None,
    };

    assert!(matches_matcher(&matcher, &context));
}

#[test]
fn missing_decides_alone() {
    let present = context_of(&[("f", "value")]);
    let absent = Context::new();
    let other = "other".to_string();
    let re = regex::Regex::new("^never$").unwrap();
    let glob = "never*".to_string();
    // missing: true matches iff absent, whatever else is set
    assert!(matches_field_conditions("f", &absent, Some(&other), Some(&re), Some(&glob), Some(true)));
    assert!(!matches_field_conditions("f", &present, Some(&other), Some(&re), Some(&glob), Some(true)));
    // missing: false matches iff present, whatever the value
    assert!(matches_field_conditions("f", &present, Some(&other), Some(&re), Some(&glob), Some(false)));
    assert!(!matches_field_conditions("f", &absent, Some(&other), Some(&re), Some(&glob), Some(false)));
    assert!(matches_field_conditions("f", &present, None, None, None, Some(false)));
}

#[test]
fn conditions_are_tried_in_order() {
    let context = context_of(&[("f", "abc")]);
    let abc = "abc".to_string();
    let xyz = "xyz".to_string();
    let matching = regex::Regex::new("^a").unwrap();
    let failing = regex::Regex::new("^z").unwrap();
    let good_glob = "a*".to_string();
    let bad_glob = "z*".to_string();
    // absent field
    assert!(!matches_field_conditions("g", &context, None, None, None, None));
    assert!(!matches_field_conditions("g", &context, Some(&abc), None, None, None));
    // presence alone
    assert!(matches_field_conditions("f", &context, None, None, None, None));
    // equals before regex and glob
    assert!(matches_field_conditions("f", &context, Some(&abc), Some(&failing), Some(&bad_glob), None));
    assert!(!matches_field_conditions("f", &context, Some(&xyz), Some(&matching), Some(&good_glob), None));
    // regex before glob
    assert!(matches_field_conditions("f", &context, None, Some(&matching), Some(&bad_glob), None));
    assert!(!matches_field_conditions("f", &context, None, Some(&failing), Some(&good_glob), None));
    // glob last
    assert!(matches_field_conditions("f", &context, None, None, Some(&good_glob), None));
    assert!(!matches_field_conditions("f", &context, None, None, Some(&bad_glob), None));
}

#[test]
fn matcher_without_blocks_matches() {
    assert!(matches_matcher(&empty_matcher(), &Context::new()));
    assert!(matches_matcher(&empty_matcher(), &context_of(&[("a", "b")])));
}

#[test]
fn any_of_nothing_never_matches() {
    let matcher = Matcher { any: Some(vec![]), ..empty_matcher() };
    assert!(!matches_matcher(&matcher, &context_of(&[("a", "b")])));
    let all_of_nothing = Matcher { all: Some(vec![]), ..empty_matcher() };
    assert!(matches_matcher(&all_of_nothing, &context_of(&[("a", "b")])));
}

#[test]
fn blocks_are_combined_with_and() {
    let context = context_of(&[("user", "root"), ("port", "22")]);
    let both = Matcher {
        all: Some(vec![equals_predicate("user", "root")]),
        any: Some(vec![equals_predicate("port", "80"), equals_predicate("port", "22")]),
        field: Some("user".to_string()),
        equals: Some("root".to_string()),
        ..empty_matcher()
    };
    assert!(matches_matcher(&both, &context));
    let all_fails = Matcher {
        all: Some(vec![equals_predicate("user", "root"), equals_predicate("port", "80")]),
        any: Some(vec![equals_predicate("port", "22")]),
        ..empty_matcher()
    };
    assert!(!matches_matcher(&all_fails, &context));
    let any_fails = Matcher {
        all: Some(vec![equals_predicate("user", "root")]),
        any: Some(vec![equals_predicate("port", "80")]),
        ..empty_matcher()
    };
    assert!(!matches_matcher(&any_fails, &context));
    let leaf_fails = Matcher {
        all: Some(vec![equals_predicate("user", "root")]),
        field: Some("user".to_string()),
        equals: Some("nobody".to_string()),
        ..empty_matcher()
    };
    assert!(!matches_matcher(&leaf_fails, &context));
}

#[test]
fn predicate_without_field_holds() {
    let predicate = Predicate {
        field: None,
        equals: Some("x".to_string()),
        regex: None,
        glob: None,
        missing: Some(true),
    };
    assert!(matches_predicate(&predicate, &context_of(&[("a", "b")])));
    assert!(!matches_predicate(&equals_predicate("a", "c"), &context_of(&[("a", "b")])));
}

#[test]
fn context_keeps_the_last_value() {
    let mut context = Context::new();
    assert!(!context.contains_key("k"));
    assert_eq!(context.get("k"), None);
    context.insert("k".to_string(), "one".to_string());
    context.insert("other".to_string(), "x".to_string());
    context.insert("k".to_string(), "two".to_string());
    assert!(context.contains_key("k"));
    assert_eq!(context.get("k"), Some(&"two".to_string()));
    assert_eq!(context.get("other"), Some(&"x".to_string()));
}

#[test]
fn glob_translation_is_exact() {
    assert_eq!(glob_to_regex("*.txt"), "^.*\\.txt$");
    assert_eq!(glob_to_regex("file?.txt"), "^file.\\.txt$");
    assert_eq!(glob_to_regex(""), "^$");
    assert_eq!(glob_to_regex("a+b"), "^a+b$");
}

#[test]
fn glob_matches_whole_texts_only() {
    assert!(glob_match("", ""));
    assert!(!glob_match("", "a"));
    assert!(!glob_match("file", "a file"));
    assert!(!glob_match("file", "files"));
    assert!(glob_match("*", "anything at all"));
    // a glob whose translation is no regular expression matches nothing
    assert!(!glob_match("(", "("));
}

#[test]
fn patterns_that_do_not_compile_match_nothing() {
    assert!(pattern_is_match("^a+$", "aaa"));
    assert!(!pattern_is_match("^a+$", "aab"));
    assert!(!pattern_is_match("[", "["));
}
