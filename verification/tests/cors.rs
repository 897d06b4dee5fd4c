use volter::{is_preflight, CorsLayer, Duration, PREFLIGHT_STATUS};

fn get<'a>(headers: &'a [(String, String)], name: &str) -> Option<&'a str> {
    headers.iter().find(|(n, _)| n == name).map(|(_, v)| v.as_str())
}

fn strings(items: &[&str]) -> Vec<String> {
    items.iter().map(|s| s.to_string()).collect()
}

#[test]
fn permissive_get_with_origin_in_header_list() {
    let h = CorsLayer::permissive().response_headers("https://example.com");
    assert_eq!(get(&h, "access-control-allow-origin"), Some("*"));
    assert_eq!(get(&h, "vary"), Some("origin"));
    assert_eq!(get(&h, "access-control-allow-credentials"), None);
}

#[test]
fn permissive_preflight_in_header_list() {
    let h = CorsLayer::permissive().preflight_headers(Some("https://example.com"), Some("GET"), None);
    assert_eq!(PREFLIGHT_STATUS, 204);
    assert_eq!(get(&h, "access-control-allow-origin"), Some("*"));
    assert_eq!(get(&h, "access-control-allow-methods"), Some("GET"));
    assert_eq!(get(&h, "access-control-allow-headers"), None);
    assert_eq!(get(&h, "vary"), Some("origin"));
}

#[test]
fn permissive_preflight_reflects_headers() {
    let h = CorsLayer::permissive().preflight_headers(
        Some("https://example.com"),
        Some("PUT"),
        Some("x-a, x-b"),
    );
    assert_eq!(get(&h, "access-control-allow-methods"), Some("PUT"));
    assert_eq!(get(&h, "access-control-allow-headers"), Some("x-a, x-b"));
}

#[test]
fn specific_origin_allowed_in_header_list() {
    let cors = CorsLayer::new().allow_origin("https://example.com");
    let h = cors.response_headers("https://example.com");
    assert_eq!(get(&h, "access-control-allow-origin"), Some("https://example.com"));
}

#[test]
fn specific_origin_disallowed_in_header_list() {
    let cors = CorsLayer::new().allow_origin("https://example.com");
    assert!(cors.response_headers("https://evil.com").is_empty());
    assert!(!cors.is_origin_allowed("https://evil.com"));
}

#[test]
fn multiple_origins_in_header_list() {
    let cors = CorsLayer::new()
        .allow_origin("https://a.com")
        .allow_origin("https://b.com");
    for origin in ["https://a.com", "https://b.com"] {
        let h = cors.response_headers(origin);
        assert_eq!(get(&h, "access-control-allow-origin"), Some(origin));
    }
    assert!(cors.response_headers("https://c.com").is_empty());
}

#[test]
fn allow_origin_after_any_restarts_list() {
    let cors = CorsLayer::permissive().allow_origin("https://a.com");
    assert!(cors.is_origin_allowed("https://a.com"));
    assert!(!cors.is_origin_allowed("https://b.com"));
    let again = cors.allow_any_origin();
    assert!(again.is_origin_allowed("https://b.com"));
}

#[test]
fn credentials_echos_origin_in_header_list() {
    let h = CorsLayer::permissive()
        .allow_credentials()
        .response_headers("https://example.com");
    assert_eq!(get(&h, "access-control-allow-origin"), Some("https://example.com"));
    assert_eq!(get(&h, "access-control-allow-credentials"), Some("true"));
}

#[test]
fn max_age_header_in_header_list() {
    let h = CorsLayer::permissive()
        .max_age(Duration::from_secs(3600))
        .preflight_headers(Some("https://example.com"), Some("GET"), None);
    assert_eq!(get(&h, "access-control-max-age"), Some("3600"));
}

#[test]
fn max_age_drops_subsecond_part() {
    let h = CorsLayer::permissive()
        .max_age(Duration::from_millis(1999))
        .preflight_headers(Some("https://example.com"), Some("GET"), None);
    assert_eq!(get(&h, "access-control-max-age"), Some("1"));
}

#[test]
fn expose_headers_in_header_list() {
    let h = CorsLayer::permissive()
        .expose_headers(strings(&["content-type", "x-custom"]))
        .response_headers("https://example.com");
    assert_eq!(get(&h, "access-control-expose-headers"), Some("content-type, x-custom"));
}

#[test]
fn specific_methods_on_preflight_in_header_list() {
    let h = CorsLayer::new()
        .allow_origin("https://example.com")
        .allow_methods(strings(&["GET", "POST"]))
        .allow_any_header()
        .preflight_headers(Some("https://example.com"), Some("GET"), None);
    assert_eq!(get(&h, "access-control-allow-methods"), Some("GET, POST"));
}

#[test]
fn specific_headers_on_preflight_in_header_list() {
    let h = CorsLayer::new()
        .allow_origin("https://example.com")
        .allow_any_method()
        .allow_headers(strings(&["content-type", "x-custom"]))
        .preflight_headers(Some("https://example.com"), Some("GET"), Some("content-type"));
    assert_eq!(get(&h, "access-control-allow-headers"), Some("content-type, x-custom"));
    assert_eq!(get(&h, "access-control-allow-methods"), Some("GET"));
}

#[test]
fn empty_lists_add_no_header() {
    let h = CorsLayer::new()
        .allow_origin("https://example.com")
        .preflight_headers(Some("https://example.com"), Some("GET"), Some("x"));
    assert_eq!(get(&h, "access-control-allow-methods"), None);
    assert_eq!(get(&h, "access-control-allow-headers"), None);
    assert_eq!(get(&h, "vary"), Some("origin"));
}

#[test]
fn preflight_disallowed_origin_in_header_list() {
    let h = CorsLayer::new()
        .allow_origin("https://example.com")
        .preflight_headers(Some("https://evil.com"), Some("GET"), None);
    assert!(h.is_empty());
}

#[test]
fn preflight_without_origin_header() {
    let h = CorsLayer::permissive().preflight_headers(None, None, None);
    assert_eq!(get(&h, "access-control-allow-origin"), Some("*"));
    assert_eq!(get(&h, "access-control-allow-methods"), None);
    let strict = CorsLayer::new().allow_origin("https://a.com").preflight_headers(None, None, None);
    assert!(strict.is_empty());
}

#[test]
fn vary_header_present_in_header_list() {
    let h = CorsLayer::permissive().response_headers("https://example.com");
    assert_eq!(h.last().map(|(n, v)| (n.as_str(), v.as_str())), Some(("vary", "origin")));
}

#[test]
fn preflight_detection() {
    assert!(is_preflight("OPTIONS", true, true));
    assert!(!is_preflight("OPTIONS", false, true));
    assert!(!is_preflight("OPTIONS", true, false));
    assert!(!is_preflight("GET", true, true));
    assert!(!is_preflight("options", true, true));
}

#[test]
fn full_preflight_header_order() {
    let h = CorsLayer::permissive()
        .allow_credentials()
        .max_age(Duration::from_secs(60))
        .preflight_headers(Some("https://a.com"), Some("DELETE"), Some("x-y"));
    let names: Vec<&str> = h.iter().map(|(n, _)| n.as_str()).collect();
    assert_eq!(
        names,
        vec![
            "access-control-allow-origin",
            "access-control-allow-methods",
            "access-control-allow-headers",
            "access-control-max-age",
            "access-control-allow-credentials",
            "vary",
        ]
    );
    assert_eq!(get(&h, "access-control-allow-origin"), Some("https://a.com"));
}

#[test]
fn default_is_permissive() {
    let d = CorsLayer::default();
    let p = CorsLayer::permissive();
    assert!(d.is_origin_allowed("https://anywhere.example"));
    assert_eq!(
        d.response_headers("https://a.example"),
        p.response_headers("https://a.example")
    );
    assert_eq!(
        d.preflight_headers(Some("https://a.example"), Some("DELETE"), Some("x-y")),
        p.preflight_headers(Some("https://a.example"), Some("DELETE"), Some("x-y"))
    );
}

#[test]
fn origin_value_rule() {
    assert_eq!(CorsLayer::permissive().origin_value("https://a.example"), "*");
    assert_eq!(
        CorsLayer::permissive().allow_credentials().origin_value("https://a.example"),
        "https://a.example"
    );
    let only = CorsLayer::new().allow_origin("https://a.example");
    assert_eq!(only.origin_value("https://b.example"), "https://b.example");
}
