use volter::rate_limit::RateLimitState;
use volter::{Duration, RateDecision, RateLimitLayer};

const SEC: u128 = 1_000_000_000;

#[test]
fn zero_window_is_clamped_to_one_millisecond() {
    let layer = RateLimitLayer::new(5, Duration::from_secs(0));
    assert_eq!(layer.window().as_nanos(), 1_000_000);
    assert_eq!(layer.max_requests(), 5);
    let layer = RateLimitLayer::new(5, Duration::from_secs(60));
    assert_eq!(layer.window().as_secs(), 60);
}

#[test]
fn admits_up_to_the_limit_in_a_window() {
    let mut s = RateLimitState::new();
    let w = Duration::from_secs(60);
    assert!(s.check_and_increment_at(3, w, 0));
    assert!(s.check_and_increment_at(3, w, 1));
    assert!(s.check_and_increment_at(3, w, 2));
    assert!(!s.check_and_increment_at(3, w, 3));
    assert!(!s.check_and_increment_at(3, w, 59 * SEC));
}

#[test]
fn new_window_resets_the_count() {
    let mut s = RateLimitState::new();
    let w = Duration::from_secs(60);
    assert!(s.check_and_increment_at(1, w, 0));
    assert!(!s.check_and_increment_at(1, w, SEC));
    assert!(s.check_and_increment_at(1, w, 60 * SEC));
    assert!(!s.check_and_increment_at(1, w, 61 * SEC));
}

#[test]
fn zero_limit_denies_everything() {
    let mut s = RateLimitState::new();
    let w = Duration::from_secs(10);
    for t in [0, 5 * SEC, 10 * SEC, 100 * SEC] {
        assert!(!s.check_and_increment_at(0, w, t));
    }
}

#[test]
fn retry_after_rounds_up() {
    let mut s = RateLimitState::new();
    let w = Duration::from_secs(60);
    assert!(s.check_and_increment_at(1, w, 0));
    assert_eq!(s.retry_after_secs_at(w, 0), 60);
    assert_eq!(s.retry_after_secs_at(w, SEC / 2), 60);
    assert_eq!(s.retry_after_secs_at(w, 59 * SEC + 1), 1);
    assert_eq!(s.retry_after_secs_at(w, 30 * SEC), 30);
}

#[test]
fn retry_after_is_at_least_one() {
    let s = RateLimitState::new();
    let w = Duration::from_secs(1);
    assert_eq!(s.retry_after_secs_at(w, 5 * SEC), 1);
    assert_eq!(s.retry_after_secs_at(Duration::from_millis(1), 0), 1);
}

#[test]
fn zero_limit_retry_after_is_the_window() {
    let mut s = RateLimitState::new();
    let w = Duration::from_secs(30);
    assert!(!s.check_and_increment_at(0, w, 30 * SEC));
    assert_eq!(s.retry_after_secs_at(w, 30 * SEC), 30);
}

#[test]
fn decide_with_the_clock() {
    let mut s = RateLimitState::new();
    let w = Duration::from_secs(3600);
    assert_eq!(s.decide(2, w), RateDecision::Allow);
    assert_eq!(s.decide(2, w), RateDecision::Allow);
    match s.decide(2, w) {
        RateDecision::Deny { retry_after } => assert!(retry_after >= 1 && retry_after <= 3600),
        RateDecision::Allow => panic!("third request in the window was admitted"),
    }
}

#[test]
fn zero_limit_decision_answers_the_whole_window() {
    let mut s = RateLimitState::new();
    let w = Duration::from_secs(60);
    for _ in 0..3 {
        assert_eq!(s.decide(0, w), RateDecision::Deny { retry_after: 60 });
    }
    let mut s = RateLimitState::new();
    assert_eq!(
        s.decide(0, Duration::from_millis(1500)),
        RateDecision::Deny { retry_after: 2 }
    );
}

#[test]
fn windows_whose_retry_after_fits() {
    assert!(volter::window_fits_retry_after(Duration::from_secs(60)));
    assert!(volter::window_fits_retry_after(Duration::from_secs(u64::MAX)));
    assert!(!volter::window_fits_retry_after(Duration::new(u64::MAX, 1)));
}
