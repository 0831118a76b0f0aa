use dev_server_proxy::rewrite::apply_rewrite;
use dev_server_proxy::types::RewriteRules;

#[test]
fn test_simple_rewrite() {
    let mut rules = RewriteRules::new();
    rules.insert("^/api".to_string(), "".to_string());

    let result = apply_rewrite("/api/users", &rules);
    assert_eq!(result, "/users");
}

#[test]
fn test_multiple_rewrites() {
    let mut rules = RewriteRules::new();
    rules.insert("^/v1".to_string(), "/api/v1".to_string());

    let result = apply_rewrite("/v1/users", &rules);
    assert_eq!(result, "/api/v1/users");
}

#[test]
fn rewrite_without_rules_keeps_path() {
    assert_eq!(apply_rewrite("/a/b", &RewriteRules::new()), "/a/b");
}

#[test]
fn rewrite_rules_apply_in_order() {
    let mut rules = RewriteRules::new();
    rules.insert("a".to_string(), "b".to_string());
    rules.insert("b".to_string(), "c".to_string());
    assert_eq!(apply_rewrite("/aab", &rules), "/ccc");
}

#[test]
fn rewrite_replaces_every_match_with_groups() {
    let mut rules = RewriteRules::new();
    rules.insert("/(\\w+)".to_string(), "/x-$1".to_string());
    assert_eq!(apply_rewrite("/a/bc", &rules), "/x-a/x-bc");
}

#[test]
fn rewrite_skips_invalid_rules() {
    let mut rules = RewriteRules::new();
    rules.insert("(".to_string(), "X".to_string());
    rules.insert("^/old".to_string(), "/new".to_string());
    assert_eq!(apply_rewrite("/old/p", &rules), "/new/p");
}

#[test]
fn rewrite_rules_behave_as_a_map() {
    let mut rules = RewriteRules::new();
    rules.insert("a".to_string(), "x".to_string());
    rules.insert("b".to_string(), "y".to_string());
    rules.insert("a".to_string(), "z".to_string());
    assert_eq!(rules.len(), 2);
    assert_eq!(rules.get(0), ("a", "z"));
    assert_eq!(rules.get(1), ("b", "y"));
    let copy = rules.clone();
    assert_eq!(copy.get(0), ("a", "z"));
    assert_eq!(apply_rewrite("/ab", &rules), "/zy");
}
