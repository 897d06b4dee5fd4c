use std::collections::HashSet;

use volter::{
    CatchPanicLayer, CompressionLayer, ConcurrencyLimitLayer, Duration, RequestBodyLimitLayer,
    RequestId, RequestIdLayer, TimeoutLayer, TraceLayer,
};

#[test]
fn body_below_limit_succeeds_by_decision() {
    let layer = RequestBodyLimitLayer::new(1024);
    assert!(!layer.exceeds_limit(Some("512")));
}

#[test]
fn body_at_limit_succeeds_by_decision() {
    let layer = RequestBodyLimitLayer::new(1024);
    assert!(!layer.exceeds_limit(Some("1024")));
}

#[test]
fn body_above_limit_is_rejected() {
    let layer = RequestBodyLimitLayer::new(1024);
    assert!(layer.exceeds_limit(Some("1025")));
    assert_eq!(layer.limit(), 1024);
}

#[test]
fn body_without_content_length_passes_through_by_decision() {
    let layer = RequestBodyLimitLayer::new(0);
    assert!(!layer.exceeds_limit(None));
}

#[test]
fn unreadable_content_length_passes_through() {
    let layer = RequestBodyLimitLayer::new(10);
    assert!(!layer.exceeds_limit(Some("abc")));
    assert!(!layer.exceeds_limit(Some("")));
    assert!(!layer.exceeds_limit(Some("-5")));
    assert!(!layer.exceeds_limit(Some(" 50")));
    assert!(!layer.exceeds_limit(Some("99999999999999999999999")));
    assert!(layer.exceeds_limit(Some("+11")));
    assert!(layer.exceeds_limit(Some("18446744073709551615")));
}

#[test]
fn parse_u64_agrees_with_std() {
    for s in ["0", "7", "+7", "+", "", "-1", "12a", "0042", "18446744073709551615", "18446744073709551616", " 1", "1 "] {
        assert_eq!(volter::text::parse_u64(s), s.parse::<u64>().ok(), "{s:?}");
    }
}

#[test]
fn existing_request_id_preserved_by_decision() {
    let provided_id = "01ARZ3NDEKTSV4RRFFQ69G5FAV";
    let id = RequestId::from_header_or_new(Some(provided_id));
    assert_eq!(id.to_string(), provided_id);
    assert_eq!(RequestId::from_string(provided_id), Some(id));
}

#[test]
fn lower_case_request_id_is_read_and_echoed_in_upper_case() {
    let id = RequestId::from_header_or_new(Some("01arz3ndektsv4rrffq69g5fav"));
    assert_eq!(id.to_string(), "01ARZ3NDEKTSV4RRFFQ69G5FAV");
}

#[test]
fn invalid_request_id_is_replaced() {
    let id = RequestId::from_header_or_new(Some("not-a-ulid"));
    let text = id.to_string();
    assert_eq!(text.len(), 26);
    assert_ne!(text, "not-a-ulid");
    assert_eq!(RequestId::from_string("not-a-ulid"), None);
    assert_eq!(RequestId::from_string("01ARZ3NDEKTSV4RRFFQ69G5FA"), None);
}

#[test]
fn generated_request_id_is_26_characters() {
    let id = RequestId::from_header_or_new(None);
    let value = id.to_string();
    assert_eq!(value.len(), 26);
    assert_eq!(RequestId::from_string(&value), Some(id));
}

#[test]
fn request_id_hash_and_eq_by_decision() {
    let id1 = RequestId::new();
    let id2 = id1;
    assert_eq!(id1, id2);

    let id3 = RequestId::new();
    let mut set = HashSet::new();
    set.insert(id1);
    assert!(set.contains(&id2));
    assert!(!set.contains(&id3));
}

#[test]
fn layer_constructors() {
    let _ = CatchPanicLayer::new();
    let _ = TraceLayer::new();
    let _ = RequestIdLayer::new();
    assert_eq!(ConcurrencyLimitLayer::new(3).max(), 3);
    assert_eq!(TimeoutLayer::new(Duration::from_millis(250)).duration().as_nanos(), 250_000_000);
}

#[test]
fn compression_encodings() {
    let all = CompressionLayer::new();
    assert!(all.gzip_enabled() && all.br_enabled() && all.zstd_enabled() && all.deflate_enabled());
    let g = CompressionLayer::gzip();
    assert!(g.gzip_enabled() && !g.br_enabled() && !g.zstd_enabled() && !g.deflate_enabled());
    let b = CompressionLayer::br();
    assert!(!b.gzip_enabled() && b.br_enabled() && !b.zstd_enabled() && !b.deflate_enabled());
    let z = CompressionLayer::zstd();
    assert!(!z.gzip_enabled() && !z.br_enabled() && z.zstd_enabled() && !z.deflate_enabled());
    let d = CompressionLayer::deflate();
    assert!(!d.gzip_enabled() && !d.br_enabled() && !d.zstd_enabled() && d.deflate_enabled());
}

#[test]
fn durations() {
    let d = Duration::new(1, 1_500_000_000);
    assert_eq!(d.as_secs(), 2);
    assert_eq!(d.subsec_nanos(), 500_000_000);
    assert_eq!(d.as_nanos(), 2_500_000_000);
    assert!(Duration::from_millis(0).is_zero());
    assert!(!Duration::from_millis(1).is_zero());
    assert_eq!(Duration::from_millis(1234).as_secs(), 1);
    assert_eq!(Duration::from_millis(1234).subsec_nanos(), 234_000_000);
}
