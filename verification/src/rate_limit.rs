//! Fixed-window rate limiting.
//!
//! Requests are counted in fixed windows of time.  While fewer than
//! `max_requests` requests were admitted in the current window, a request is
//! admitted and counted; otherwise it is rejected with `429 Too Many
//! Requests` and a `Retry-After` header giving the seconds until the window
//! ends.  A window ends `window` after it started; the first request after
//! that starts a new window.

use vstd::prelude::*;

use crate::time::{instant_now, nanos_since, Duration, NANOS_PER_SEC};

verus! {

/// A layer that limits the request rate with a fixed-window counter.
///
/// A limit of zero is accepted and means every request is denied.
#[derive(Debug, Clone, Copy)]
pub struct RateLimitLayer {
    max_requests: u64,
    window: Duration,
}

impl RateLimitLayer {
    /// Create a `RateLimitLayer` admitting `max_requests` requests per
    /// `window`.  A zero-length window is clamped to 1 ms.
    pub fn new(max_requests: u64, window: Duration) -> (r: Self)
        ensures
            r.max_requests_spec() == max_requests,
            r.window_spec()@ == if window@ == 0 {
                1_000_000
            } else {
                window@
            },
    {
        let window = if window.is_zero() {
            Duration::from_millis(1)
        } else {
            window
        };
        RateLimitLayer { max_requests, window }
    }

    pub closed spec fn max_requests_spec(&self) -> u64 {
        self.max_requests
    }

    pub closed spec fn window_spec(&self) -> Duration {
        self.window
    }

    /// The number of requests admitted per window.
    pub fn max_requests(&self) -> (n: u64)
        ensures
            n == self.max_requests_spec(),
    {
        self.max_requests
    }

    /// The length of a window.
    pub fn window(&self) -> (d: Duration)
        ensures
            d == self.window_spec(),
    {
        self.window
    }
}

/// The counter of the current window: when it started (in nanoseconds of
/// the state's clock) and how many requests it admitted.
pub ghost struct WindowCounter {
    pub start: nat,
    pub count: nat,
}

/// One rate check at time `now` (nanoseconds): the counter afterwards, and
/// whether the request is admitted.
pub open spec fn check_step(
    c: WindowCounter,
    max_requests: nat,
    window: nat,
    now: nat,
) -> (WindowCounter, bool) {
    let current = if now >= c.start + window {
        WindowCounter { start: now, count: 0 }
    } else {
        c
    };
    if current.count < max_requests {
        (WindowCounter { start: current.start, count: current.count + 1 }, true)
    } else {
        (current, false)
    }
}

/// Seconds, rounded up, in `nanos` nanoseconds.
pub open spec fn ceil_secs(nanos: nat) -> nat {
    nanos / (NANOS_PER_SEC as nat) + if nanos % (NANOS_PER_SEC as nat) > 0 {
        1nat
    } else {
        0nat
    }
}

/// The `Retry-After` value at time `now`: the seconds, rounded up, until
/// the current window ends, and at least 1.
pub open spec fn retry_after_spec(c: WindowCounter, window: nat, now: nat) -> nat {
    let elapsed: nat = if now >= c.start {
        (now - c.start) as nat
    } else {
        0
    };
    let remaining: nat = if window >= elapsed {
        (window - elapsed) as nat
    } else {
        0
    };
    if ceil_secs(remaining) >= 1 {
        ceil_secs(remaining)
    } else {
        1
    }
}

/// Whether `window` has a `Retry-After` in every case that fits in a `u64`.
pub open spec fn retry_after_fits(window: Duration) -> bool {
    window@ / (NANOS_PER_SEC as nat) < u64::MAX || window@ % (NANOS_PER_SEC as nat) == 0
}

/// Whether every `Retry-After` value of `window` fits in a `u64` (see
/// [`retry_after_fits`]): its whole seconds are below `u64::MAX`, or it has
/// no fraction of a second.
pub fn window_fits_retry_after(window: Duration) -> (r: bool)
    ensures
        r == retry_after_fits(window),
{
    window.as_secs() < u64::MAX || window.subsec_nanos() == 0
}

/// The outcome of a rate-limit check.
#[derive(Debug, Clone, Copy, PartialEq, Eq)]
pub enum RateDecision {
    /// The request is admitted.
    Allow,
    /// The request is rejected; the window ends in `retry_after` seconds.
    Deny { retry_after: u64 },
}

/// The `Retry-After` value of a whole window: its seconds, rounded up, and
/// at least 1.
pub open spec fn whole_window_retry(window: nat) -> nat {
    if ceil_secs(window) >= 1 {
        ceil_secs(window)
    } else {
        1
    }
}

/// One decision: a rate check at time `t1` and, when the request is
/// rejected, the `Retry-After` value: with a limit of zero, the whole
/// window; otherwise the time left in the window, read at time `t2`.
pub open spec fn decide_spec(
    c: WindowCounter,
    max_requests: nat,
    window: nat,
    t1: nat,
    t2: nat,
) -> (WindowCounter, RateDecision) {
    let (c1, allowed) = check_step(c, max_requests, window, t1);
    if allowed {
        (c1, RateDecision::Allow)
    } else if max_requests == 0 {
        (c1, RateDecision::Deny { retry_after: whole_window_retry(window) as u64 })
    } else {
        (c1, RateDecision::Deny { retry_after: retry_after_spec(c1, window, t2) as u64 })
    }
}

/// The shared state of a fixed-window rate counter.
pub struct RateLimitState {
    epoch: std::time::Instant,
    window_start: u128,
    count: u64,
}

impl RateLimitState {
    /// The counter of the current window.
    pub closed spec fn view(&self) -> WindowCounter {
        WindowCounter { start: self.window_start as nat, count: self.count as nat }
    }

    /// A fresh state: its window starts now, with no request counted.
    pub fn new() -> (s: Self)
        ensures
            s@ == (WindowCounter { start: 0, count: 0 }),
    {
        RateLimitState { epoch: instant_now(), window_start: 0, count: 0 }
    }

    /// Check whether a request arriving at `now` (nanoseconds since the
    /// state was created) is admitted.  Starts a new window if the current
    /// one has ended, and counts the request when it is admitted.
    pub fn check_and_increment_at(&mut self, max_requests: u64, window: Duration, now: u128) -> (allowed: bool)
        ensures
            (final(self)@, allowed) == check_step(old(self)@, max_requests as nat, window@, now as nat),
    {
        let w = window.as_nanos();
        if now >= self.window_start && now - self.window_start >= w {
            self.window_start = now;
            self.count = 0;
        }
        if self.count < max_requests {
            self.count = self.count + 1;
            true
        } else {
            false
        }
    }

    /// Seconds until the current window ends at time `now`, rounded up
    /// (minimum 1).
    pub fn retry_after_secs_at(&self, window: Duration, now: u128) -> (secs: u64)
        requires
            retry_after_fits(window),
        ensures
            secs == retry_after_spec(self@, window@, now as nat),
    {
        let w = window.as_nanos();
        let elapsed: u128 = if now >= self.window_start {
            now - self.window_start
        } else {
            0
        };
        let remaining: u128 = if w >= elapsed {
            w - elapsed
        } else {
            0
        };
        let window_secs = window.as_secs();
        assert(remaining <= window@);
        let whole: u128 = remaining / 1_000_000_000u128;
        let has_subsec = remaining % 1_000_000_000u128 > 0;
        proof {
            let r = remaining as int;
            let wv = window@ as int;
            assert(r / 1_000_000_000 <= wv / 1_000_000_000) by (nonlinear_arith)
                requires
                    0 <= r <= wv,
            ;
            if r / 1_000_000_000 == wv / 1_000_000_000 && r % 1_000_000_000 > 0 {
                assert(wv % 1_000_000_000 >= r % 1_000_000_000) by (nonlinear_arith)
                    requires
                        0 <= r <= wv,
                        r / 1_000_000_000 == wv / 1_000_000_000,
                ;
            }
        }
        assert(whole <= u64::MAX);
        assert(whole == u64::MAX ==> !has_subsec);
        let secs: u64 = whole as u64 + if has_subsec {
            1u64
        } else {
            0u64
        };
        if secs >= 1 {
            secs
        } else {
            1
        }
    }

    /// Check whether a request arriving now is admitted (see
    /// [`check_and_increment_at`](Self::check_and_increment_at)).
    pub fn check_and_increment(&mut self, max_requests: u64, window: Duration) -> (allowed: bool)
        ensures
            exists|now: nat|
                (final(self)@, allowed) == check_step(old(self)@, max_requests as nat, window@, now),
    {
        let now = nanos_since(&self.epoch);
        self.check_and_increment_at(max_requests, window, now)
    }

    /// Seconds until the current window ends, rounded up (minimum 1).
    pub fn retry_after_secs(&self, window: Duration) -> (secs: u64)
        requires
            retry_after_fits(window),
        ensures
            exists|now: nat| secs == retry_after_spec(self@, window@, now),
    {
        let now = nanos_since(&self.epoch);
        self.retry_after_secs_at(window, now)
    }

    /// Decide a request: admit it, or reject it with a `Retry-After` value.
    /// With a limit of zero that value is the whole window; otherwise it is
    /// the seconds until the window ends, read from the clock again.
    pub fn decide(&mut self, max_requests: u64, window: Duration) -> (d: RateDecision)
        requires
            retry_after_fits(window),
        ensures
            exists|t1: nat, t2: nat|
                #[trigger] decide_spec(old(self)@, max_requests as nat, window@, t1, t2) == (
                    final(self)@,
                    d,
                ),
    {
        let ghost c0 = self@;
        if self.check_and_increment(max_requests, window) {
            proof {
                let t1 = choose|now: nat|
                    (self@, true) == check_step(c0, max_requests as nat, window@, now);
                assert(decide_spec(c0, max_requests as nat, window@, t1, 0) == (
                    self@,
                    RateDecision::Allow,
                ));
            }
            RateDecision::Allow
        } else if max_requests == 0 {
            let ghost c1 = self@;
            let secs = self.retry_after_secs_at(window, self.window_start);
            proof {
                let t1 = choose|now: nat|
                    (c1, false) == check_step(c0, max_requests as nat, window@, now);
                assert(retry_after_spec(c1, window@, c1.start) == whole_window_retry(window@));
                assert(decide_spec(c0, max_requests as nat, window@, t1, 0) == (
                    self@,
                    RateDecision::Deny { retry_after: secs },
                ));
            }
            RateDecision::Deny { retry_after: secs }
        } else {
            let ghost c1 = self@;
            let secs = self.retry_after_secs(window);
            proof {
                let t1 = choose|now: nat|
                    (c1, false) == check_step(c0, max_requests as nat, window@, now);
                let t2 = choose|now: nat| secs == retry_after_spec(c1, window@, now);
                assert(decide_spec(c0, max_requests as nat, window@, t1, t2) == (
                    self@,
                    RateDecision::Deny { retry_after: secs },
                ));
            }
            RateDecision::Deny { retry_after: secs }
        }
    }
}

/// A limit of zero denies every request.
pub proof fn lemma_zero_limit_denies(c: WindowCounter, window: nat, now: nat)
    ensures
        !check_step(c, 0, window, now).1,
{
}

/// The `Retry-After` value is at least one second.
pub proof fn lemma_retry_after_positive(c: WindowCounter, window: nat, now: nat)
    ensures
        retry_after_spec(c, window, now) >= 1,
{
}

proof fn lemma_ceil_secs_monotone(a: nat, b: nat)
    requires
        a <= b,
    ensures
        ceil_secs(a) <= ceil_secs(b),
{
    let x = a as int;
    let y = b as int;
    assert(x / 1_000_000_000 <= y / 1_000_000_000) by (nonlinear_arith)
        requires
            0 <= x <= y,
    ;
    if x / 1_000_000_000 == y / 1_000_000_000 && x % 1_000_000_000 > 0 {
        assert(y % 1_000_000_000 >= x % 1_000_000_000) by (nonlinear_arith)
            requires
                0 <= x <= y,
                x / 1_000_000_000 == y / 1_000_000_000,
        ;
    }
}

/// The `Retry-After` value lies between one second and the whole window
/// (in seconds, rounded up, at least 1).
pub proof fn lemma_retry_after_at_most_window(c: WindowCounter, window: nat, now: nat)
    ensures
        1 <= retry_after_spec(c, window, now) <= whole_window_retry(window),
{
    let elapsed: nat = if now >= c.start {
        (now - c.start) as nat
    } else {
        0
    };
    let remaining: nat = if window >= elapsed {
        (window - elapsed) as nat
    } else {
        0
    };
    lemma_ceil_secs_monotone(remaining, window);
}

/// A request arriving after the current window has ended is admitted
/// (unless the limit is zero): it starts a new window and is its first
/// request.
pub proof fn lemma_new_window_admits(c: WindowCounter, max_requests: nat, window: nat, now: nat)
    requires
        max_requests > 0,
        now >= c.start + window,
    ensures
        check_step(c, max_requests, window, now) == (WindowCounter { start: now, count: 1 }, true),
{
}

/// With a limit of zero, every request is denied and told to retry after
/// the whole window (in seconds, rounded up, at least 1), whenever it
/// arrives.
pub proof fn lemma_zero_limit_retry_after_window(c: WindowCounter, window: nat, t1: nat, t2: nat)
    ensures
        decide_spec(c, 0, window, t1, t2).1 == (RateDecision::Deny {
            retry_after: whole_window_retry(window) as u64,
        }),
{
}

/// The counter after the requests arriving at `times`, and how many of them
/// were admitted.
pub open spec fn run_checks(
    c: WindowCounter,
    max_requests: nat,
    window: nat,
    times: Seq<nat>,
) -> (WindowCounter, nat)
    decreases times.len(),
{
    if times.len() == 0 {
        (c, 0)
    } else {
        let (c1, admitted) = run_checks(c, max_requests, window, times.drop_last());
        let (c2, ok) = check_step(c1, max_requests, window, times.last());
        (c2, admitted + if ok {
            1nat
        } else {
            0nat
        })
    }
}

/// Within one window at most `max_requests` requests are admitted: if every
/// request arrives before the current window ends, the requests admitted
/// now and those already counted in the window add up to at most
/// `max_requests`.
pub proof fn lemma_window_admits_at_most_max(
    c: WindowCounter,
    max_requests: nat,
    window: nat,
    times: Seq<nat>,
)
    requires
        c.count <= max_requests,
        forall|i: int| 0 <= i < times.len() ==> #[trigger] times[i] < c.start + window,
    ensures
        run_checks(c, max_requests, window, times).0.start == c.start,
        run_checks(c, max_requests, window, times).0.count == c.count + run_checks(
            c,
            max_requests,
            window,
            times,
        ).1,
        c.count + run_checks(c, max_requests, window, times).1 <= max_requests,
    decreases times.len(),
{
    if times.len() > 0 {
        lemma_window_admits_at_most_max(c, max_requests, window, times.drop_last());
        assert(times.last() == times[times.len() - 1]);
    }
}

} // verus!
