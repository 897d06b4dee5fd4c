//! Configuration of the middleware layers and the decisions they make.

use vstd::prelude::*;

use crate::text::{parse_u64, parse_u64_spec};
use crate::time::Duration;

verus! {

/// A layer that rejects requests whose declared `Content-Length` exceeds a
/// limit, with `413 Payload Too Large`.  Requests without a (readable)
/// `Content-Length` pass.
#[derive(Clone, Copy, Debug)]
pub struct RequestBodyLimitLayer {
    limit: usize,
}

/// Whether a request with `Content-Length` value `content_length` is over
/// `limit` bytes.
pub open spec fn exceeds_limit_spec(content_length: Option<Seq<char>>, limit: nat) -> bool {
    match content_length {
        Some(v) => match parse_u64_spec(v) {
            Some(n) => n > limit,
            None => false,
        },
        None => false,
    }
}

impl RequestBodyLimitLayer {
    /// Create a layer that rejects bodies larger than `limit` bytes.
    pub fn new(limit: usize) -> (r: Self)
        ensures
            r.limit_spec() == limit,
    {
        RequestBodyLimitLayer { limit }
    }

    pub closed spec fn limit_spec(&self) -> usize {
        self.limit
    }

    /// The limit, in bytes.
    pub fn limit(&self) -> (n: usize)
        ensures
            n == self.limit_spec(),
    {
        self.limit
    }

    /// Whether a request with the `Content-Length` value `content_length`
    /// (`None` when missing or not visible ASCII) is rejected.
    pub fn exceeds_limit(&self, content_length: Option<&str>) -> (r: bool)
        ensures
            r == exceeds_limit_spec(
                match content_length {
                    Some(v) => Some(v@),
                    None => None,
                },
                self.limit_spec() as nat,
            ),
    {
        match content_length {
            Some(v) => match parse_u64(v) {
                Some(n) => n > self.limit as u64,
                None => false,
            },
            None => false,
        }
    }
}

/// A layer that turns a panic in the inner service into `500 Internal
/// Server Error`.
#[derive(Clone, Copy, Default, Debug)]
pub struct CatchPanicLayer {
    _private: (),
}

impl CatchPanicLayer {
    /// Create the layer.
    pub fn new() -> Self {
        CatchPanicLayer { _private: () }
    }
}

/// A layer that lets at most `max` requests run in the inner service at
/// once; further requests wait for a slot.
#[derive(Debug, Clone, Copy)]
pub struct ConcurrencyLimitLayer {
    max: usize,
}

impl ConcurrencyLimitLayer {
    /// Create a layer allowing `max` requests at once.
    pub fn new(max: usize) -> (r: Self)
        ensures
            r.max_spec() == max,
    {
        ConcurrencyLimitLayer { max }
    }

    pub closed spec fn max_spec(&self) -> usize {
        self.max
    }

    /// The number of requests allowed at once.
    pub fn max(&self) -> (n: usize)
        ensures
            n == self.max_spec(),
    {
        self.max
    }
}

/// A layer that answers `408 Request Timeout` when the inner service takes
/// longer than a duration.
#[derive(Clone, Copy, Debug)]
pub struct TimeoutLayer {
    duration: Duration,
}

impl TimeoutLayer {
    /// Create a layer with the given time limit.
    pub fn new(duration: Duration) -> (r: Self)
        ensures
            r.duration_spec() == duration,
    {
        TimeoutLayer { duration }
    }

    pub closed spec fn duration_spec(&self) -> Duration {
        self.duration
    }

    /// The time limit.
    pub fn duration(&self) -> (d: Duration)
        ensures
            d == self.duration_spec(),
    {
        self.duration
    }
}

/// A layer that logs each request with its method, target, status and
/// latency.
#[derive(Clone, Copy, Default, Debug)]
pub struct TraceLayer {
    _private: (),
}

impl TraceLayer {
    /// Create the layer.
    pub fn new() -> Self {
        TraceLayer { _private: () }
    }
}

/// A layer that compresses response bodies with the encodings it enables.
#[derive(Clone, Copy, Debug)]
pub struct CompressionLayer {
    gzip: bool,
    br: bool,
    zstd: bool,
    deflate: bool,
}

/// The encodings a [`CompressionLayer`] enables.
pub ghost struct Encodings {
    pub gzip: bool,
    pub br: bool,
    pub zstd: bool,
    pub deflate: bool,
}

impl CompressionLayer {
    pub closed spec fn view(&self) -> Encodings {
        Encodings { gzip: self.gzip, br: self.br, zstd: self.zstd, deflate: self.deflate }
    }

    /// Enable every supported encoding: gzip, brotli, zstd and deflate.
    pub fn new() -> (r: Self)
        ensures
            r@ == (Encodings { gzip: true, br: true, zstd: true, deflate: true }),
    {
        CompressionLayer { gzip: true, br: true, zstd: true, deflate: true }
    }

    /// Enable gzip only.
    pub fn gzip() -> (r: Self)
        ensures
            r@ == (Encodings { gzip: true, br: false, zstd: false, deflate: false }),
    {
        CompressionLayer { gzip: true, br: false, zstd: false, deflate: false }
    }

    /// Enable brotli only.
    pub fn br() -> (r: Self)
        ensures
            r@ == (Encodings { gzip: false, br: true, zstd: false, deflate: false }),
    {
        CompressionLayer { gzip: false, br: true, zstd: false, deflate: false }
    }

    /// Enable zstd only.
    pub fn zstd() -> (r: Self)
        ensures
            r@ == (Encodings { gzip: false, br: false, zstd: true, deflate: false }),
    {
        CompressionLayer { gzip: false, br: false, zstd: true, deflate: false }
    }

    /// Enable deflate only.
    pub fn deflate() -> (r: Self)
        ensures
            r@ == (Encodings { gzip: false, br: false, zstd: false, deflate: true }),
    {
        CompressionLayer { gzip: false, br: false, zstd: false, deflate: true }
    }

    /// Whether gzip is enabled.
    pub fn gzip_enabled(&self) -> (b: bool)
        ensures
            b == self@.gzip,
    {
        self.gzip
    }

    /// Whether brotli is enabled.
    pub fn br_enabled(&self) -> (b: bool)
        ensures
            b == self@.br,
    {
        self.br
    }

    /// Whether zstd is enabled.
    pub fn zstd_enabled(&self) -> (b: bool)
        ensures
            b == self@.zstd,
    {
        self.zstd
    }

    /// Whether deflate is enabled.
    pub fn deflate_enabled(&self) -> (b: bool)
        ensures
            b == self@.deflate,
    {
        self.deflate
    }
}

} // verus!
