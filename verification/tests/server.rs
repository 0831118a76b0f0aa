use dev_server_proxy::server::{proxied_event, route_request, upstream_failure, RouteAction};
use dev_server_proxy::types::{Config, Location, RewriteRules};

fn loc(rule: &str, target: &str, inject: Option<&str>) -> Location {
    Location {
        rule: rule.to_string(),
        target: target.to_string(),
        inject: inject.map(|s| s.to_string()),
        path_rewrite: None,
    }
}

fn config(default_target: &str, locations: Vec<Location>) -> Config {
    Config {
        server_name: "dev".to_string(),
        default_target: default_target.to_string(),
        port: 8080,
        websocket: None,
        locations,
    }
}

#[test]
fn route_matched_location_is_forwarded() {
    let mut api = loc("^~ /api", "http://localhost:5000", Some("<s>"));
    let mut rules = RewriteRules::new();
    rules.insert("^/api".to_string(), "".to_string());
    api.path_rewrite = Some(rules);
    let cfg = config("http://localhost:8080", vec![api]);
    match route_request(&cfg, "/api/users", "t".to_string()) {
        RouteAction::Forward { url, inject, proxy_path } => {
            assert_eq!(url, "http://localhost:5000/users");
            assert_eq!(inject, Some("<s>".to_string()));
            assert_eq!(proxy_path, "http://localhost:5000/api/users");
        }
        RouteAction::Reply(_) => panic!("expected forwarding"),
    }
}

#[test]
fn route_unmatched_goes_to_default_target() {
    let cfg = config("http://localhost:8080", vec![loc("= /only", "http://h", Some("<s>"))]);
    match route_request(&cfg, "/x", "t".to_string()) {
        RouteAction::Forward { url, inject, proxy_path } => {
            assert_eq!(url, "http://localhost:8080/x");
            assert_eq!(inject, None);
            assert_eq!(proxy_path, "http://localhost:8080/x");
        }
        RouteAction::Reply(_) => panic!("expected forwarding"),
    }
}

#[test]
fn route_failed() {
    let cfg = config("http://localhost:8080", vec![loc("/", "not a url", None)]);
    match route_request(&cfg, "/x", "t".to_string()) {
        RouteAction::Reply(out) => {
            assert_eq!(out.status, 500);
            assert_eq!(out.body, "Failed to proxy request");
            assert_eq!(out.event.event, "error");
            assert_eq!(out.event.req_path, "/x");
            assert_eq!(out.event.proxy_path, "");
            assert_eq!(out.event.timestamp, "t");
            assert_eq!(out.event.status, 500);
        }
        RouteAction::Forward { .. } => panic!("expected an answer"),
    }
    let bad_default = config("not a url", Vec::new());
    assert!(matches!(route_request(&bad_default, "/x", "t".to_string()), RouteAction::Reply(_)));
}

#[test]
fn events_of_forwarded_requests() {
    let e = proxied_event("/a", "http://h/a", 404, "t".to_string());
    assert_eq!(e.event, "proxy");
    assert_eq!(e.req_path, "/a");
    assert_eq!(e.proxy_path, "http://h/a");
    assert_eq!(e.status, 404);
    assert_eq!(e.timestamp, "t");
    let out = upstream_failure("/a", "http://h/a", "t".to_string());
    assert_eq!(out.status, 502);
    assert_eq!(out.body, "Bad gateway");
    assert_eq!(out.event.event, "error");
    assert_eq!(out.event.proxy_path, "http://h/a");
    assert_eq!(out.event.status, 502);
}

#[test]
fn route_padded_default_target() {
    let padding = "\n".repeat(0x100_0001);
    let cfg = config(&format!("{}http://localhost:8080", padding), Vec::new());
    match route_request(&cfg, "/x", "t".to_string()) {
        RouteAction::Forward { url, .. } => assert_eq!(url, "http://localhost:8080/x"),
        RouteAction::Reply(_) => panic!("expected forwarding"),
    }
}
