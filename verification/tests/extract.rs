use volter::HandlerAction::{CallHandler, Extract, Reject};
use volter::{
    check_json_content_type, check_websocket_upgrade, Extension, ExtensionRejection, Json,
    JsonRejectionKind, Path, Query, UrlParams, WsRejection,
};

#[test]
fn json_content_types() {
    assert_eq!(check_json_content_type(Some("application/json")), Ok(()));
    assert_eq!(check_json_content_type(Some("application/json; charset=utf-8")), Ok(()));
    assert_eq!(check_json_content_type(Some("  application/json  ;x")), Ok(()));
    assert_eq!(check_json_content_type(Some("application/vnd.api+json")), Ok(()));
    assert_eq!(
        check_json_content_type(None),
        Err(JsonRejectionKind::MissingJsonContentType)
    );
    assert_eq!(
        check_json_content_type(Some("")),
        Err(JsonRejectionKind::MissingJsonContentType)
    );
    assert_eq!(
        check_json_content_type(Some("text/plain")),
        Err(JsonRejectionKind::UnsupportedJsonContentType)
    );
    assert_eq!(
        check_json_content_type(Some("text/json")),
        Err(JsonRejectionKind::UnsupportedJsonContentType)
    );
    assert_eq!(
        check_json_content_type(Some("application/+json")),
        Ok(())
    );
    assert_eq!(
        check_json_content_type(Some("Application/JSON")),
        Err(JsonRejectionKind::UnsupportedJsonContentType)
    );
}

#[test]
fn json_rejection_statuses() {
    assert_eq!(JsonRejectionKind::MissingJsonContentType.status(), 415);
    assert_eq!(JsonRejectionKind::UnsupportedJsonContentType.status(), 415);
    assert_eq!(JsonRejectionKind::BodyReadError.status(), 500);
    assert_eq!(JsonRejectionKind::InvalidJsonBody.status(), 400);
}

#[test]
fn extension_rejection() {
    let r = ExtensionRejection::MissingExtension("my::Type");
    assert_eq!(r.status(), 500);
    assert_eq!(r.message(), "request extension not found: my::Type");
}

#[test]
fn valid_websocket_request_extracts_ok_by_check() {
    assert_eq!(check_websocket_upgrade(Some("websocket"), true), Ok(()));
    assert_eq!(check_websocket_upgrade(Some(" WebSocket "), true), Ok(()));
}

#[test]
fn missing_upgrade_header_returns_rejection_by_check() {
    assert_eq!(
        check_websocket_upgrade(None, true),
        Err(WsRejection::MissingUpgradeHeader)
    );
    assert_eq!(
        check_websocket_upgrade(Some("h2c"), true),
        Err(WsRejection::MissingUpgradeHeader)
    );
    assert_eq!(WsRejection::MissingUpgradeHeader.status(), 426);
}

#[test]
fn missing_key_returns_rejection() {
    assert_eq!(
        check_websocket_upgrade(Some("websocket"), false),
        Err(WsRejection::MissingWebSocketKey)
    );
    assert_eq!(WsRejection::MissingWebSocketKey.status(), 400);
}

#[test]
fn extractor_wrappers() {
    let Json(a) = Json(1);
    let Path(b) = Path("x");
    let Query(c) = Query(2u8);
    let Extension(d) = Extension(true);
    assert_eq!((a, b, c, d), (1, "x", 2u8, true));
    let p = UrlParams(vec![("id".to_string(), "1".to_string())]);
    assert_eq!(p.clone().0.len(), 1);
    assert!(UrlParams::default().0.is_empty());
}

fn run_handler(n: usize, failures: &[bool]) -> Vec<volter::HandlerAction> {
    let mut actions = Vec::new();
    let mut done = 0;
    let mut failed = false;
    loop {
        let a = volter::handler_step(n, done, failed);
        actions.push(a);
        match a {
            volter::HandlerAction::Extract(i) => {
                failed = failures[i];
                done += 1;
            }
            _ => return actions,
        }
    }
}

#[test]
fn handler_steps_stop_at_the_first_rejection() {
    assert_eq!(run_handler(0, &[]), vec![CallHandler]);
    assert_eq!(
        run_handler(3, &[false, false, false]),
        vec![Extract(0), Extract(1), Extract(2), CallHandler]
    );
    assert_eq!(run_handler(3, &[true, false, false]), vec![Extract(0), Reject]);
    assert_eq!(
        run_handler(3, &[false, true, false]),
        vec![Extract(0), Extract(1), Reject]
    );
    assert_eq!(volter::handler_step(2, 1, true), Reject);
    assert_eq!(volter::handler_step(2, 1, false), Extract(1));
    assert_eq!(volter::handler_step(2, 2, false), CallHandler);
}
