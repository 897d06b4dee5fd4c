use volter::RoutePattern;

#[test]
fn static_route_matches() {
    let pattern = RoutePattern::parse("/users");
    assert_eq!(pattern.matches("/users"), Some(vec![]));
}

#[test]
fn static_route_does_not_match_different_path() {
    let pattern = RoutePattern::parse("/users");
    assert_eq!(pattern.matches("/posts"), None);
}

#[test]
fn root_path_matches() {
    let pattern = RoutePattern::parse("/");
    assert_eq!(pattern.matches("/"), Some(vec![]));
}

#[test]
fn single_param() {
    let pattern = RoutePattern::parse("/users/:id");
    assert_eq!(
        pattern.matches("/users/42"),
        Some(vec![("id".to_string(), "42".to_string())])
    );
}

#[test]
fn multiple_params() {
    let pattern = RoutePattern::parse("/posts/:post_id/comments/:comment_id");
    let result = pattern.matches("/posts/1/comments/2");
    assert_eq!(
        result,
        Some(vec![
            ("post_id".to_string(), "1".to_string()),
            ("comment_id".to_string(), "2".to_string()),
        ])
    );
}

#[test]
fn param_does_not_match_different_length() {
    let pattern = RoutePattern::parse("/users/:id");
    assert_eq!(pattern.matches("/users"), None);
    assert_eq!(pattern.matches("/users/42/extra"), None);
}

#[test]
fn param_does_not_match_static_mismatch() {
    let pattern = RoutePattern::parse("/users/:id");
    assert_eq!(pattern.matches("/posts/42"), None);
}

#[test]
fn string_param_value() {
    let pattern = RoutePattern::parse("/users/:name");
    assert_eq!(
        pattern.matches("/users/alice"),
        Some(vec![("name".to_string(), "alice".to_string())])
    );
}

#[test]
fn repeated_slashes_are_ignored() {
    let pattern = RoutePattern::parse("//users///:id/");
    assert_eq!(
        pattern.matches("/users//7/"),
        Some(vec![("id".to_string(), "7".to_string())])
    );
}

#[test]
fn empty_pattern_matches_only_root() {
    let pattern = RoutePattern::parse("");
    assert_eq!(pattern.matches("/"), Some(vec![]));
    assert_eq!(pattern.matches(""), Some(vec![]));
    assert_eq!(pattern.matches("/a"), None);
}

#[test]
fn pattern_matches_its_own_text() {
    for p in ["/users/:id", "/a/b/c", "/:x/:y", "/", "/posts/:post_id/comments/:comment_id"] {
        assert!(RoutePattern::parse(p).matches(p).is_some(), "{p}");
    }
}

#[test]
fn unicode_segments() {
    let pattern = RoutePattern::parse("/caf\u{e9}/:n");
    assert_eq!(
        pattern.matches("/caf\u{e9}/\u{1f600}"),
        Some(vec![("n".to_string(), "\u{1f600}".to_string())])
    );
}
