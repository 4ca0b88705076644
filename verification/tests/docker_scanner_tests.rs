use valeris::docker::scanner::{parse_id_set, validate_plugin_ids};
use valeris::text::split_on_commas;
use valeris::idset::IdSet;
use valeris::selection::IdKind;

fn plugin_set(ids: &[&str]) -> IdSet {
    let mut set = IdSet::new();
    for id in ids {
        set.insert(id.to_string());
    }
    set
}

#[test]
fn test_parse_id_set() {
    let input = Some("  foo,Bar ,baz".to_string());
    let set = parse_id_set(&input).unwrap();
    assert!(set.contains("foo"));
    assert!(set.contains("bar"));
    assert!(set.contains("baz"));
    assert_eq!(set.len(), 3);
}

#[test]
fn test_parse_id_set_none() {
    let input: Option<String> = None;
    let set = parse_id_set(&input);
    assert!(set.is_none());
}

#[test]
fn test_validate_plugin_ids_all_valid() {
    let available = plugin_set(&["a", "b", "c"]);
    let provided = Some(plugin_set(&["b", "a"]));
    let result = validate_plugin_ids(&available, &provided, "--only");
    assert!(result.is_ok());
}

#[test]
fn test_validate_plugin_ids_with_invalid() {
    let available = plugin_set(&["a", "b", "c"]);
    let provided = Some(plugin_set(&["x", "b"]));
    let result = validate_plugin_ids(&available, &provided, "--only");
    assert!(result.is_err());
}

#[test]
fn unknown_plugins_are_all_listed() {
    let available = plugin_set(&["a", "b"]);
    let provided = Some(plugin_set(&["x", "b", "y"]));
    let err = validate_plugin_ids(&available, &provided, "--exclude").unwrap_err();
    assert_eq!(err.what, IdKind::Plugin);
    assert_eq!(err.flag, "--exclude");
    assert_eq!(err.ids, vec!["x".to_string(), "y".to_string()]);
    assert_eq!(err.message(), "Unknown plugins in --exclude: x, y");
    let one = validate_plugin_ids(&available, &Some(plugin_set(&["z"])), "--only").unwrap_err();
    assert_eq!(one.message(), "Unknown plugin in --only: z");
    assert!(validate_plugin_ids(&available, &None, "--only").is_ok());
}

#[test]
fn commas_split_a_text_into_pieces() {
    assert_eq!(split_on_commas("a,b"), vec!["a".to_string(), "b".to_string()]);
    assert_eq!(split_on_commas(""), vec!["".to_string()]);
    assert_eq!(split_on_commas("a,,b,"), vec!["a".to_string(), "".to_string(), "b".to_string(), "".to_string()]);
    assert_eq!(split_on_commas("plain"), vec!["plain".to_string()]);
}
