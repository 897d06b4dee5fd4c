//! Volter: the routing, CORS, rate-limiting and request-checking logic of an
//! async web framework, with contracts checked by Verus.
//!
//! The server plumbing (sockets, async services, middleware execution) sits
//! around this library and asks it for every decision: which route answers a
//! request, which CORS headers a response gets, whether a request is over
//! its rate or body limit, and what a rejection answers.

use vstd::prelude::*;

pub mod cors;
pub mod extract;
pub mod layers;
pub mod pattern;
pub mod prefix;
pub mod rate_limit;
pub mod request_id;
pub mod route_attr;
pub mod routing;
pub mod scaffold;
pub mod seqs;
pub mod service;
pub mod testing;
pub mod text;
pub mod time;

pub use cors::{is_preflight, CorsLayer, PREFLIGHT_STATUS};
pub use extract::{
    check_json_content_type, check_websocket_upgrade, handler_step, Extension, ExtensionRejection,
    HandlerAction, Json, JsonRejectionKind, Path, Query, UrlParams, WsRejection,
};
pub use layers::{
    CatchPanicLayer, CompressionLayer, ConcurrencyLimitLayer, RequestBodyLimitLayer, TimeoutLayer,
    TraceLayer,
};
pub use pattern::{RoutePattern, Segment};
pub use prefix::{match_and_strip_prefix, normalize_prefix};
pub use rate_limit::{window_fits_retry_after, RateDecision, RateLimitLayer, RateLimitState};
pub use request_id::{RequestId, RequestIdLayer};
pub use route_attr::{RouteAttr, RouteMethod};
pub use routing::{LayeredMerge, MethodRouter, MethodSelection, RouteMatch, RouteTable};
pub use scaffold::{
    cargo_toml_template, is_valid_crate_name, main_rs_template, validate_project_name,
    NewProjectError,
};
pub use service::HandlerService;
pub use testing::{BodyError, TestResponse};
pub use time::Duration;

verus! {

} // verus!
