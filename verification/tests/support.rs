use volter::{BodyError, HandlerService, RouteAttr, RouteMethod, TestResponse};

#[test]
fn route_attr_descriptors() {
    let g = RouteAttr::get("/");
    assert_eq!(g.path(), "/");
    assert_eq!(g.method(), RouteMethod::Get);
    let p = RouteAttr::post("/items");
    assert_eq!(p.path(), "/items");
    assert_eq!(p.method(), RouteMethod::Post);
}

#[test]
fn handler_service_holds_handler_and_state() {
    let svc: HandlerService<fn() -> u8, (), String> = HandlerService::new(|| 7, "state".to_string());
    assert_eq!((svc.handler())(), 7);
    assert_eq!(svc.state(), "state");
}

#[test]
fn test_response_accessors() {
    let r = TestResponse::new(
        201,
        vec![("content-type".to_string(), "text/plain".to_string())],
        b"hello".to_vec(),
    );
    assert_eq!(r.status(), 201);
    assert_eq!(r.header("content-type"), Some("text/plain".to_string()));
    assert_eq!(r.header("x-missing"), None);
    assert_eq!(r.headers().len(), 1);
    assert_eq!(r.text(), Ok("hello".to_string()));
}

#[test]
fn test_response_invalid_utf8() {
    let r = TestResponse::new(200, vec![], vec![0xff, 0xfe]);
    assert_eq!(r.text(), Err(BodyError::Utf8));
    let r = TestResponse::new(200, vec![], vec![1, 2, 3]);
    assert_eq!(r.bytes(), vec![1, 2, 3]);
}

#[test]
fn text_helpers() {
    assert_eq!(volter::text::decimal_string(0), "0");
    assert_eq!(volter::text::decimal_string(3600), "3600");
    assert_eq!(volter::text::decimal_string(u64::MAX), u64::MAX.to_string());
    let items = vec!["a".to_string(), "b".to_string(), "c".to_string()];
    assert_eq!(volter::text::join_strings(&items, ", "), "a, b, c");
    assert_eq!(volter::text::join_strings(&vec![], ", "), "");
    assert_eq!(
        volter::text::split_segments("/a//b/"),
        vec!["a".to_string(), "b".to_string()]
    );
}

#[test]
fn test_response_header_lookup_ignores_ascii_case() {
    let r = TestResponse::new(
        200,
        vec![
            ("content-type".to_string(), "text/plain".to_string()),
            ("x-request-id".to_string(), "abc".to_string()),
        ],
        vec![],
    );
    assert_eq!(r.header("Content-Type"), Some("text/plain".to_string()));
    assert_eq!(r.header("X-REQUEST-ID"), Some("abc".to_string()));
    assert_eq!(r.header("x-missing"), None);
}
