use volter::{LayeredMerge, MethodRouter, RouteMatch, RouteTable};
use volter::{match_and_strip_prefix, normalize_prefix};

fn get(h: u32) -> MethodRouter<u32> {
    let mut m = MethodRouter::new();
    m.get(h);
    m
}

fn post(h: u32) -> MethodRouter<u32> {
    let mut m = MethodRouter::new();
    m.post(h);
    m
}

fn handler_for(t: &RouteTable<u32>, method: &str, path: &str) -> Option<u32> {
    match t.dispatch(method, path) {
        RouteMatch::Static { route, service } => Some(*t.static_service(route, service)),
        RouteMatch::Param { route, service, .. } => Some(*t.param_service(route, service)),
        _ => None,
    }
}

#[test]
fn get_root_dispatches() {
    let mut t = RouteTable::new();
    t.route("/", get(1));
    assert_eq!(handler_for(&t, "GET", "/"), Some(1));
}

#[test]
fn unknown_path_is_not_found() {
    let mut t = RouteTable::new();
    t.route("/", get(1));
    assert!(matches!(t.dispatch("GET", "/unknown"), RouteMatch::NotFound));
}

#[test]
fn wrong_method_is_not_allowed() {
    let mut t = RouteTable::new();
    t.route("/", get(1));
    assert!(matches!(t.dispatch("POST", "/"), RouteMatch::MethodNotAllowed));
}

#[test]
fn empty_method_router_is_not_found() {
    let mut t: RouteTable<u32> = RouteTable::new();
    t.route("/", MethodRouter::new());
    assert!(matches!(t.dispatch("GET", "/"), RouteMatch::NotFound));
}

#[test]
fn get_and_post_on_one_path() {
    let mut m = MethodRouter::new();
    m.get(1);
    m.post(2);
    let mut t = RouteTable::new();
    t.route("/items", m);
    assert_eq!(handler_for(&t, "GET", "/items"), Some(1));
    assert_eq!(handler_for(&t, "POST", "/items"), Some(2));
    assert!(matches!(t.dispatch("PUT", "/items"), RouteMatch::MethodNotAllowed));
}

#[test]
fn re_registering_a_method_replaces_it() {
    let mut m = MethodRouter::new();
    m.get(1);
    m.get(5);
    assert_eq!(m.len(), 1);
    assert_eq!(m.find("GET"), Some(0));
    assert_eq!(*m.handler(0), 5);
}

#[test]
fn routes_for_one_path_accumulate_methods() {
    let mut t = RouteTable::new();
    t.route("/items", get(1));
    t.route("/items", post(2));
    assert_eq!(handler_for(&t, "GET", "/items"), Some(1));
    assert_eq!(handler_for(&t, "POST", "/items"), Some(2));
    t.route("/items", get(3));
    assert_eq!(handler_for(&t, "GET", "/items"), Some(3));
    assert_eq!(handler_for(&t, "POST", "/items"), Some(2));
    assert!(matches!(t.dispatch("PUT", "/items"), RouteMatch::MethodNotAllowed));
}

#[test]
fn a_second_param_route_with_one_pattern_is_appended() {
    let mut t = RouteTable::new();
    t.route("/users/:id", get(1));
    t.route("/users/:id", post(2));
    assert_eq!(handler_for(&t, "GET", "/users/7"), Some(1));
    assert!(matches!(t.dispatch("POST", "/users/7"), RouteMatch::MethodNotAllowed));
}

#[test]
fn param_route_captures() {
    let mut t = RouteTable::new();
    t.route("/users/:id", get(3));
    match t.dispatch("GET", "/users/42") {
        RouteMatch::Param { route: 0, service: 0, params } => {
            assert_eq!(params, vec![("id".to_string(), "42".to_string())])
        }
        other => panic!("unexpected {other:?}"),
    }
    assert!(matches!(t.dispatch("GET", "/users"), RouteMatch::NotFound));
    assert!(matches!(t.dispatch("POST", "/users/1"), RouteMatch::MethodNotAllowed));
}

#[test]
fn static_routes_win_over_params() {
    let mut t = RouteTable::new();
    t.route("/users/:id", get(3));
    t.route("/users/me", get(4));
    assert_eq!(handler_for(&t, "GET", "/users/me"), Some(4));
    assert_eq!(handler_for(&t, "GET", "/users/7"), Some(3));
}

#[test]
fn first_param_route_wins() {
    let mut t = RouteTable::new();
    t.route("/:a", get(1));
    t.route("/:b", get(2));
    assert_eq!(handler_for(&t, "GET", "/x"), Some(1));
}

#[test]
fn nested_router_strips_prefix() {
    let mut t = RouteTable::new();
    t.nest("/api", 9u32);
    match t.dispatch("GET", "/api/users") {
        RouteMatch::Nested { nest: 0, path } => assert_eq!(path, "/users"),
        other => panic!("unexpected {other:?}"),
    }
    match t.dispatch("GET", "/api") {
        RouteMatch::Nested { nest: 0, path } => assert_eq!(path, "/"),
        other => panic!("unexpected {other:?}"),
    }
    assert!(matches!(t.dispatch("GET", "/api2"), RouteMatch::NotFound));
    assert_eq!(*t.nested_service(0), 9);
}

#[test]
fn nest_prefix_is_normalized() {
    let mut t = RouteTable::new();
    t.nest("api", 1u32);
    t.nest("/v2/", 2u32);
    assert!(matches!(t.dispatch("GET", "/api/items"), RouteMatch::Nested { nest: 0, .. }));
    assert!(matches!(t.dispatch("GET", "/v2/items"), RouteMatch::Nested { nest: 1, .. }));
}

#[test]
fn routes_win_over_nests_and_layer() {
    let mut t = RouteTable::new();
    t.nest("/", 1u32);
    t.route("/x", get(5));
    assert_eq!(handler_for(&t, "GET", "/x"), Some(5));
    match t.dispatch("GET", "/y") {
        RouteMatch::Nested { nest: 0, path } => assert_eq!(path, "/y"),
        other => panic!("unexpected {other:?}"),
    }
}

#[test]
fn layer_takes_earlier_routes() {
    let mut t = RouteTable::new();
    t.route("/before", get(1));
    let inner = t.take_routes();
    t.set_layered(Some(100u32));
    t.route("/after", get(2));
    assert!(matches!(t.dispatch("GET", "/before"), RouteMatch::Layered));
    assert_eq!(handler_for(&t, "GET", "/after"), Some(2));
    assert_eq!(t.layered(), Some(&100));
    assert_eq!(handler_for(&inner, "GET", "/before"), Some(1));
    assert!(matches!(inner.dispatch("GET", "/after"), RouteMatch::NotFound));
}

#[test]
fn merge_last_wins() {
    let mut a = RouteTable::new();
    a.route("/shared", get(1));
    a.route("/a", get(2));
    a.route("/:id", get(3));
    let mut b = RouteTable::new();
    b.route("/shared", get(10));
    b.route("/b", get(20));
    b.route("/:id", get(30));
    assert!(matches!(a.merge(b), LayeredMerge::Settled));
    assert_eq!(handler_for(&a, "GET", "/shared"), Some(10));
    assert_eq!(handler_for(&a, "GET", "/a"), Some(2));
    assert_eq!(handler_for(&a, "GET", "/b"), Some(20));
    assert_eq!(handler_for(&a, "GET", "/anything"), Some(30));
    assert!(matches!(a.dispatch("GET", "/unknown/x"), RouteMatch::NotFound));
}

#[test]
fn merge_nests_last_first() {
    let mut a = RouteTable::new();
    a.nest("/api", 1u32);
    let mut b = RouteTable::new();
    b.nest("/api", 2u32);
    b.nest("/admin", 3u32);
    a.merge(b);
    match a.dispatch("GET", "/api/x") {
        RouteMatch::Nested { nest, .. } => assert_eq!(*a.nested_service(nest), 2),
        other => panic!("unexpected {other:?}"),
    }
}

#[test]
fn merge_layered_services() {
    let mut a: RouteTable<u32> = RouteTable::new();
    a.set_layered(Some(1));
    let b: RouteTable<u32> = RouteTable::new();
    assert!(matches!(a.merge(b), LayeredMerge::Settled));
    assert_eq!(a.layered(), Some(&1));

    let mut c: RouteTable<u32> = RouteTable::new();
    let mut d: RouteTable<u32> = RouteTable::new();
    d.set_layered(Some(2));
    assert!(matches!(c.merge(d), LayeredMerge::Settled));
    assert_eq!(c.layered(), Some(&2));

    let mut e: RouteTable<u32> = RouteTable::new();
    e.set_layered(Some(1));
    let mut f: RouteTable<u32> = RouteTable::new();
    f.set_layered(Some(2));
    match e.merge(f) {
        LayeredMerge::Combine { last, first } => {
            assert_eq!((last, first), (2, 1));
        }
        LayeredMerge::Settled => panic!("expected both layered services back"),
    }
    assert_eq!(e.layered(), None);
}

#[test]
fn take_layered_empties_it() {
    let mut t: RouteTable<u32> = RouteTable::new();
    t.set_layered(Some(4));
    assert_eq!(t.take_layered(), Some(4));
    assert_eq!(t.layered(), None);
    assert!(matches!(t.dispatch("GET", "/"), RouteMatch::NotFound));
}

#[test]
fn normalize_prefix_cases() {
    assert_eq!(normalize_prefix("/api"), "/api");
    assert_eq!(normalize_prefix("api"), "/api");
    assert_eq!(normalize_prefix("/api/"), "/api");
    assert_eq!(normalize_prefix("/api///"), "/api");
    assert_eq!(normalize_prefix(""), "/");
    assert_eq!(normalize_prefix("/"), "/");
    assert_eq!(normalize_prefix("///"), "/");
    assert_eq!(normalize_prefix("a/b/"), "/a/b");
}

#[test]
fn normalize_prefix_is_idempotent() {
    for p in ["", "/", "api", "/api/", "a/b//", "//x"] {
        let once = normalize_prefix(p);
        assert_eq!(normalize_prefix(&once), once);
    }
}

#[test]
fn strip_prefix_cases() {
    assert_eq!(match_and_strip_prefix("/api/users", "/api"), Some("/users".to_string()));
    assert_eq!(match_and_strip_prefix("/api", "/api"), Some("/".to_string()));
    assert_eq!(match_and_strip_prefix("/api/", "/api"), Some("/".to_string()));
    assert_eq!(match_and_strip_prefix("/api2", "/api"), None);
    assert_eq!(match_and_strip_prefix("/ap", "/api"), None);
    assert_eq!(match_and_strip_prefix("/anything", "/"), Some("/anything".to_string()));
    assert_eq!(match_and_strip_prefix("/a/b/c", "/a/b"), Some("/c".to_string()));
}

#[test]
fn strip_prefix_with_a_trailing_slash() {
    assert_eq!(match_and_strip_prefix("/api/", "/api/"), Some("/".to_string()));
    assert_eq!(match_and_strip_prefix("/api/users", "/api/"), None);
    assert_eq!(match_and_strip_prefix("/api//users", "/api/"), Some("/users".to_string()));
}

#[test]
fn a_cloned_table_dispatches_like_the_original() {
    let mut t = RouteTable::new();
    t.route("/a", get(1));
    t.route("/a", post(2));
    t.route("/u/:id", get(3));
    t.nest("/api", 4);
    t.set_layered(Some(5));
    let c = t.clone();
    assert_eq!(handler_for(&c, "GET", "/a"), Some(1));
    assert_eq!(handler_for(&c, "POST", "/a"), Some(2));
    assert_eq!(handler_for(&c, "GET", "/u/9"), Some(3));
    match c.dispatch("GET", "/api/x") {
        RouteMatch::Nested { nest, path } => {
            assert_eq!(*c.nested_service(nest), 4);
            assert_eq!(path, "/x");
        }
        other => panic!("unexpected {other:?}"),
    }
    assert!(matches!(c.dispatch("GET", "/zzz"), RouteMatch::Layered));
    assert_eq!(c.layered(), Some(&5));
}
