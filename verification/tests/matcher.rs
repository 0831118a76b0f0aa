use dev_server_proxy::matcher::{find_match, find_match_index, parse_rule, select_location};
use dev_server_proxy::types::{Location, RuleType};

fn loc(rule: &str, target: &str) -> Location {
    Location {
        rule: rule.to_string(),
        target: target.to_string(),
        inject: None,
        path_rewrite: None,
    }
}

#[test]
fn test_parse_rule() {
    assert_eq!(parse_rule("= /"), (RuleType::Exact, "/"));
    assert_eq!(parse_rule("^~ /api"), (RuleType::PrefixStrict, "/api"));
    assert_eq!(parse_rule("~ \\.js$"), (RuleType::RegexSensitive, "\\.js$"));
    assert_eq!(parse_rule("~* \\.js$"), (RuleType::RegexInsensitive, "\\.js$"));
    assert_eq!(parse_rule("/static"), (RuleType::Prefix, "/static"));
}

#[test]
fn test_exact_match() {
    let locations = vec![
        Location {
            rule: "= /".to_string(),
            target: "http://localhost:8000".to_string(),
            inject: None,
            path_rewrite: None,
        },
        Location {
            rule: "/".to_string(),
            target: "http://localhost:3000".to_string(),
            inject: None,
            path_rewrite: None,
        },
    ];

    let matched = find_match(&locations, "/");
    assert!(matched.is_some());
    assert_eq!(matched.unwrap().target, "http://localhost:8000");
}

#[test]
fn test_prefix_match() {
    let locations = vec![
        Location {
            rule: "^~ /api".to_string(),
            target: "http://localhost:5000".to_string(),
            inject: None,
            path_rewrite: None,
        },
        Location {
            rule: "/".to_string(),
            target: "http://localhost:3000".to_string(),
            inject: None,
            path_rewrite: None,
        },
    ];

    let matched = find_match(&locations, "/api/users");
    assert!(matched.is_some());
    assert_eq!(matched.unwrap().target, "http://localhost:5000");
}

#[test]
fn parse_rule_trims_white_space() {
    assert_eq!(parse_rule("  = /x \t"), (RuleType::Exact, "/x"));
    assert_eq!(parse_rule("\u{3000}^~ /a\u{a0}"), (RuleType::PrefixStrict, "/a"));
    assert_eq!(parse_rule(""), (RuleType::Prefix, ""));
    assert_eq!(parse_rule("   "), (RuleType::Prefix, ""));
}

#[test]
fn parse_rule_edge_markers() {
    // A marker without the space after it is a plain prefix.
    assert_eq!(parse_rule("=/"), (RuleType::Prefix, "=/"));
    // Only the trimmed rule is inspected: "= " trims to "=".
    assert_eq!(parse_rule("= "), (RuleType::Prefix, "="));
    // The pattern keeps inner white space after the marker.
    assert_eq!(parse_rule("=  /x"), (RuleType::Exact, " /x"));
    assert_eq!(parse_rule("~*  a"), (RuleType::RegexInsensitive, " a"));
}

#[test]
fn parse_rule_reads_back_its_text() {
    for (kind, marker) in [
        (RuleType::Exact, "= "),
        (RuleType::PrefixStrict, "^~ "),
        (RuleType::RegexSensitive, "~ "),
        (RuleType::RegexInsensitive, "~* "),
    ] {
        let text = format!("{}{}", marker, "/a b");
        assert_eq!(parse_rule(&text), (kind, "/a b"));
    }
    assert_eq!(parse_rule("/a b"), (RuleType::Prefix, "/a b"));
}

#[test]
fn exact_match_beats_all_others() {
    let locations = vec![
        loc("^~ /api", "strict"),
        loc("~ ^/api$", "regex"),
        loc("/api", "prefix"),
        loc("= /api", "exact"),
        loc("= /api", "exact2"),
    ];
    assert_eq!(find_match(&locations, "/api").unwrap().target, "exact");
    assert_eq!(find_match_index(&locations, "/api"), Some(3));
}

#[test]
fn longest_strict_prefix_wins_first_among_equals() {
    let locations = vec![
        loc("^~ /a", "short"),
        loc("^~ /a/b", "long"),
        loc("^~ /a/b", "long2"),
        loc("~ .*", "regex"),
    ];
    assert_eq!(find_match(&locations, "/a/b/c").unwrap().target, "long");
    assert_eq!(find_match(&locations, "/a/x").unwrap().target, "short");
}

#[test]
fn regex_rules_in_order() {
    let locations = vec![
        loc("~ \\.css$", "css"),
        loc("~* \\.JS$", "js-insensitive"),
        loc("~ \\.js$", "js"),
        loc("/", "root"),
    ];
    assert_eq!(find_match(&locations, "/app.js").unwrap().target, "js-insensitive");
    assert_eq!(find_match(&locations, "/site.css").unwrap().target, "css");
    assert_eq!(find_match(&locations, "/index.html").unwrap().target, "root");
}

#[test]
fn case_sensitive_regex_does_not_ignore_case() {
    let locations = vec![loc("~ \\.JS$", "js"), loc("/static", "static")];
    assert!(find_match(&locations, "/app.js").is_none());
    assert_eq!(find_match(&locations, "/app.JS").unwrap().target, "js");
}

#[test]
fn invalid_regex_is_skipped() {
    let locations = vec![loc("~ (unclosed", "bad"), loc("/", "root")];
    assert_eq!(find_match(&locations, "/(unclosed").unwrap().target, "root");
}

#[test]
fn longest_plain_prefix_wins() {
    let locations = vec![
        loc("/", "root"),
        loc("/static", "static"),
        loc("/static/img", "img"),
        loc("/static", "static2"),
    ];
    assert_eq!(find_match(&locations, "/static/img/a.png").unwrap().target, "img");
    assert_eq!(find_match(&locations, "/static/css").unwrap().target, "static");
    assert_eq!(find_match(&locations, "/other").unwrap().target, "root");
    // The root rule "/" applies even to a path that does not start with "/".
    assert_eq!(find_match(&locations, "other").unwrap().target, "root");
}

#[test]
fn no_rule_applies() {
    let locations = vec![loc("= /a", "a"), loc("^~ /b", "b"), loc("/c", "c")];
    assert!(find_match(&locations, "/d").is_none());
    assert!(find_match(&[], "/").is_none());
}

#[test]
fn select_location_uses_given_regex_results() {
    let locations = vec![loc("~ x", "r1"), loc("~ y", "r2"), loc("/", "root")];
    assert_eq!(select_location(&locations, "/p", &[false, true, false]), Some(1));
    assert_eq!(select_location(&locations, "/p", &[false, false, false]), Some(2));
    let exact = vec![loc("= /p", "e"), loc("~ x", "r")];
    assert_eq!(select_location(&exact, "/p", &[false, true]), Some(0));
}
