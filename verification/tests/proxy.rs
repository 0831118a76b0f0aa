use dev_server_proxy::proxy::{
    build_target_url, inject_into_html, injected_body, is_html_response, response_body,
    target_url_for_path, TargetUrlError,
};
use dev_server_proxy::types::{Location, RewriteRules};

fn location(target: &str, rewrites: Option<Vec<(&str, &str)>>) -> Location {
    Location {
        rule: "/".to_string(),
        target: target.to_string(),
        inject: None,
        path_rewrite: rewrites.map(|r| {
            let mut rules = RewriteRules::new();
            for (p, q) in r {
                rules.insert(p.to_string(), q.to_string());
            }
            rules
        }),
    }
}

#[test]
fn test_build_target_url() {
    let location = Location {
        rule: "^~ /api".to_string(),
        target: "http://localhost:5000".to_string(),
        inject: None,
        path_rewrite: None,
    };

    let uri = build_target_url(&location, "/api/users").unwrap();
    assert_eq!(uri.to_string(), "http://localhost:5000/api/users");
}

#[test]
fn test_is_html_response() {
    assert!(is_html_response(Some("text/html; charset=utf-8")));
    assert!(is_html_response(Some("application/xhtml+xml")));
    assert!(!is_html_response(Some("application/json")));
    assert!(!is_html_response(None));
}

#[test]
fn test_inject_into_html() {
    let html = "<html><head><title>Test</title></head><body>Content</body></html>";
    let inject = "<script>console.log('injected')</script>";
    let result = inject_into_html(html, inject);
    assert!(result.contains(inject));
    assert!(result.contains("</head>"));
}

#[test]
fn inject_goes_right_before_first_head_close() {
    let html = "<head>a</head><p>é</p></head>";
    assert_eq!(inject_into_html(html, "X"), "<head>aX</head><p>é</p></head>");
}

#[test]
fn inject_without_head_is_prepended() {
    assert_eq!(inject_into_html("<p>hi</p>", "<s>"), "<s><p>hi</p>");
    assert_eq!(inject_into_html("", "<s>"), "<s>");
    assert_eq!(inject_into_html("</head>", ""), "</head>");
}

#[test]
fn inject_can_be_taken_out_again() {
    let html = "<html><head></head></html>";
    let inject = "<style>x</style>";
    let result = inject_into_html(html, inject);
    let k = html.find("</head>").unwrap();
    assert_eq!(&result[k..k + inject.len()], inject);
    assert_eq!(format!("{}{}", &result[..k], &result[k + inject.len()..]), html);
}

#[test]
fn html_content_type_edge_cases() {
    assert!(is_html_response(Some("TEXT/HTML; x; text/html")));
    assert!(!is_html_response(Some("TEXT/HTML")));
    assert!(!is_html_response(Some("")));
    assert!(is_html_response(Some("x-application/xhtml")));
}

#[test]
fn build_target_url_applies_rewrites() {
    let loc = location("http://localhost:5000", Some(vec![("^/api", "")]));
    assert_eq!(build_target_url(&loc, "/api/users").unwrap(), "http://localhost:5000/users");
}

#[test]
fn build_target_url_replaces_target_path() {
    let loc = location("http://localhost:5000/base?q=1", None);
    assert_eq!(build_target_url(&loc, "/x y").unwrap(), "http://localhost:5000/x%20y?q=1");
}

#[test]
fn build_target_url_drops_fragment_from_uri() {
    let loc = location("http://localhost:5000/#frag", None);
    assert_eq!(build_target_url(&loc, "/api").unwrap(), "http://localhost:5000/api");
}

#[test]
fn invalid_target_is_reported() {
    let loc = location("not a url", None);
    assert_eq!(build_target_url(&loc, "/x"), Err(TargetUrlError::InvalidTarget));
    assert_eq!(target_url_for_path("", "/x"), Err(TargetUrlError::InvalidTarget));
}

#[test]
fn too_long_uri_is_reported() {
    let path = format!("/{}", "a".repeat(70000));
    assert_eq!(target_url_for_path("http://h", &path), Err(TargetUrlError::InvalidUri));
}

#[test]
fn long_path_goes_through_url_and_http() {
    let path = format!("/{}", "a".repeat(0x100_0000));
    let loc = location("http://h", None);
    assert_eq!(build_target_url(&loc, &path), Err(TargetUrlError::InvalidUri));
    let bad = location("not a url", None);
    assert_eq!(build_target_url(&bad, &path), Err(TargetUrlError::InvalidTarget));
}

#[test]
fn padded_target_is_accepted() {
    let padding = " ".repeat(0x100_0001);
    let target = format!("{}http://localhost:5000{}", padding, padding);
    let loc = location(&target, None);
    assert_eq!(build_target_url(&loc, "/api").unwrap(), "http://localhost:5000/api");
    assert_eq!(target_url_for_path("http://h\t\n:80", "/a\tb"), Ok("http://h/ab".to_string()));
}

#[test]
fn response_body_injects_into_html_only() {
    let mut loc = location("http://h", None);
    let html = "<head></head><body>x</body>";
    assert_eq!(response_body(&loc, Some("text/html"), html), html);
    loc.inject = Some("<script>s</script>".to_string());
    assert_eq!(
        response_body(&loc, Some("text/html; charset=utf-8"), html),
        "<head><script>s</script></head><body>x</body>"
    );
    assert_eq!(response_body(&loc, Some("application/json"), "{}"), "{}");
    assert_eq!(response_body(&loc, None, html), html);
    assert_eq!(injected_body(&None, Some("text/html"), html), html);
    assert_eq!(
        injected_body(&Some("I".to_string()), Some("application/xhtml+xml"), "<p/>"),
        "I<p/>"
    );
}
