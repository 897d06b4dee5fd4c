//! Extractor types and the request checks that decide their rejections.

use vstd::prelude::*;
use vstd::string::*;

use crate::text::{
    before_semicolon, chars_before_semicolon, chars_eq, chars_eq_ignore_ascii_case,
    chars_end_with, chars_of, chars_start_with, eq_ignore_ascii_case_spec, is_white_space,
    leading_space, trailing_space, trim_chars, trim_spec,
};

verus! {

/// Path parameters captured by a parameterized route, as `(name, value)`
/// pairs in pattern order.
#[derive(Clone, Debug, Default)]
pub struct UrlParams(pub Vec<(String, String)>);

/// Extractor and response for a JSON body.
#[derive(Debug, Clone)]
pub struct Json<T>(pub T);

/// Extractor for typed path parameters.
#[derive(Debug, Clone)]
pub struct Path<T>(pub T);

/// Extractor for a typed query string.
#[derive(Debug, Clone)]
pub struct Query<T>(pub T);

/// Extractor for a value stored in the request extensions.
#[derive(Debug, Clone)]
pub struct Extension<T>(pub T);

/// Rejection of the [`Extension`] extractor.
#[derive(Debug, Clone, Copy)]
pub enum ExtensionRejection {
    /// No value of the named type was in the request extensions.
    MissingExtension(&'static str),
}

impl ExtensionRejection {
    /// The status of the response: `500 Internal Server Error`.
    pub fn status(&self) -> (s: u16)
        ensures
            s == 500,
    {
        500
    }

    /// The error message.
    pub fn message(&self) -> (m: String)
        ensures
            match *self {
                ExtensionRejection::MissingExtension(name) => m@ == "request extension not found: "@
                    + name@,
            },
    {
        match self {
            ExtensionRejection::MissingExtension(name) => {
                let mut m = "request extension not found: ".to_owned();
                m.append(name);
                m
            },
        }
    }
}

/// Why the [`Json`] extractor rejects a request.
#[derive(Debug, Clone, Copy, PartialEq, Eq)]
pub enum JsonRejectionKind {
    /// The `content-type` header is missing.
    MissingJsonContentType,
    /// The `content-type` header is not a JSON media type.
    UnsupportedJsonContentType,
    /// The request body could not be read.
    BodyReadError,
    /// The body is not valid JSON of the expected shape.
    InvalidJsonBody,
}

impl JsonRejectionKind {
    /// The status of the response: `415` for a missing or unsupported
    /// content type, `500` when the body could not be read, `400` for an
    /// invalid body.
    pub fn status(&self) -> (s: u16)
        ensures
            s == match *self {
                JsonRejectionKind::MissingJsonContentType => 415u16,
                JsonRejectionKind::UnsupportedJsonContentType => 415u16,
                JsonRejectionKind::BodyReadError => 500u16,
                JsonRejectionKind::InvalidJsonBody => 400u16,
            },
    {
        match self {
            JsonRejectionKind::MissingJsonContentType => 415,
            JsonRejectionKind::UnsupportedJsonContentType => 415,
            JsonRejectionKind::BodyReadError => 500,
            JsonRejectionKind::InvalidJsonBody => 400,
        }
    }
}

/// Whether `mime` is a JSON media type: `application/json`, or
/// `application/<something>+json`.
pub open spec fn is_json_mime(mime: Seq<char>) -> bool {
    ||| mime == "application/json"@
    ||| (mime.len() >= "application/"@.len() && mime.take("application/"@.len() as int)
        == "application/"@ && mime.len() >= "+json"@.len() && mime.skip(
        mime.len() - "+json"@.len(),
    ) == "+json"@)
}

/// How the [`Json`] extractor judges the `content-type` value `ct` (the empty
/// string when the header is missing or not visible ASCII): the media type
/// is the part before the first `;`, trimmed.
pub open spec fn json_content_type_spec(ct: Seq<char>) -> Result<(), JsonRejectionKind> {
    if is_json_mime(trim_spec(before_semicolon(ct))) {
        Ok(())
    } else if ct.len() == 0 {
        Err(JsonRejectionKind::MissingJsonContentType)
    } else {
        Err(JsonRejectionKind::UnsupportedJsonContentType)
    }
}

/// Check the `content-type` of a request for the [`Json`] extractor.
pub fn check_json_content_type(content_type: Option<&str>) -> (r: Result<(), JsonRejectionKind>)
    ensures
        r == json_content_type_spec(
            match content_type {
                Some(c) => c@,
                None => ""@,
            },
        ),
{
    let ct = match content_type {
        Some(c) => c,
        None => "",
    };
    let cs = chars_of(ct);
    let mime = trim_chars(&chars_before_semicolon(&cs));
    let json = chars_of("application/json");
    let app = chars_of("application/");
    let suffix = chars_of("+json");
    if chars_eq(&mime, &json) || (chars_start_with(&mime, &app) && chars_end_with(&mime, &suffix)) {
        return Ok(());
    }
    if cs.len() == 0 {
        Err(JsonRejectionKind::MissingJsonContentType)
    } else {
        Err(JsonRejectionKind::UnsupportedJsonContentType)
    }
}

/// The part of `m + s` before its first `;` is `m`, when `m` holds no `;`
/// and `s` is empty or starts with `;`.
proof fn lemma_before_semicolon_of_media_type(m: Seq<char>, s: Seq<char>)
    requires
        !m.contains(';'),
        s.len() == 0 || s[0] == ';',
    ensures
        before_semicolon(m + s) == m,
{
    let ct = m + s;
    if s.len() == 0 {
        assert(ct =~= m);
    } else {
        assert(ct[m.len() as int] == ';');
        assert(ct.contains(';'));
        let i = choose|i: int| 0 <= i < ct.len() && ct[i] == ';' && forall|k: int| 0 <= k < i ==> ct[k] != ';';
        if i < m.len() {
            assert(ct[i] == m[i]);
            assert(m.contains(';'));
        }
        if i > m.len() {
            assert(ct[m.len() as int] != ';');
        }
        assert(i == m.len());
        assert(ct.take(i) =~= m);
    }
}

/// Trimming leaves text that neither starts nor ends with white space
/// unchanged.
proof fn lemma_trim_keeps(m: Seq<char>)
    requires
        m.len() > 0,
        !is_white_space(m[0]),
        !is_white_space(m.last()),
    ensures
        trim_spec(m) == m,
{
    assert(leading_space(m) == 0);
    assert(m.skip(0) =~= m);
    assert(trailing_space(m) == 0);
    assert(m.take(m.len() as int) =~= m);
}

/// The `Json` extractor accepts every `application/…+json` media type and
/// `application/json`, with or without parameters after a `;` (such as
/// `; charset=utf-8`): for a subtype part `x` without `;` and a parameter
/// part `s` that is empty or starts with `;`, both
/// `application/` `x` `+json` `s` and `application/json` `s` are accepted.
pub proof fn lemma_json_media_types_accepted(x: Seq<char>, s: Seq<char>)
    requires
        !x.contains(';'),
        s.len() == 0 || s[0] == ';',
    ensures
        json_content_type_spec("application/"@ + x + "+json"@ + s) == Ok::<(), JsonRejectionKind>(()),
        json_content_type_spec("application/json"@ + s) == Ok::<(), JsonRejectionKind>(()),
{
    reveal_strlit("application/");
    reveal_strlit("+json");
    reveal_strlit("application/json");
    let m = "application/"@ + x + "+json"@;
    assert(!m.contains(';')) by {
        if m.contains(';') {
            let k = choose|k: int| 0 <= k < m.len() && m[k] == ';';
            if 12 <= k < 12 + x.len() {
                assert(x[k - 12] == ';');
                assert(x.contains(';'));
            }
        }
    }
    lemma_before_semicolon_of_media_type(m, s);
    assert(m[0] == 'a');
    assert(m.last() == 'n');
    lemma_trim_keeps(m);
    assert(m.take(12) =~= "application/"@);
    assert(m.skip(m.len() - 5) =~= "+json"@);
    assert(is_json_mime(m));
    let j = "application/json"@;
    assert(!j.contains(';')) by {
        if j.contains(';') {
            let k = choose|k: int| 0 <= k < j.len() && j[k] == ';';
        }
    }
    lemma_before_semicolon_of_media_type(j, s);
    assert(j[0] == 'a');
    assert(j.last() == 'n');
    lemma_trim_keeps(j);
}

/// Whether the `Json` extractor accepts a content type depends only on its
/// media type: adding parameters after a `;` to a media type `m` (without
/// `;`) never changes whether it is accepted.
pub proof fn lemma_json_verdict_ignores_parameters(m: Seq<char>, params: Seq<char>)
    requires
        !m.contains(';'),
    ensures
        (json_content_type_spec(m + seq![';'] + params) is Ok) == (json_content_type_spec(m) is Ok),
{
    let s = seq![';'] + params;
    assert(m + seq![';'] + params =~= m + s);
    lemma_before_semicolon_of_media_type(m, s);
    lemma_before_semicolon_of_media_type(m, seq![]);
    assert(m + seq![] =~= m);
}

/// Rejection of the WebSocket upgrade extractor.
#[derive(Debug, Clone, Copy, PartialEq, Eq)]
pub enum WsRejection {
    /// The `Upgrade: websocket` header is missing.
    MissingUpgradeHeader,
    /// The `Sec-WebSocket-Key` header is missing.
    MissingWebSocketKey,
}

impl WsRejection {
    /// The status of the response: `426 Upgrade Required` or `400 Bad
    /// Request`.
    pub fn status(&self) -> (s: u16)
        ensures
            s == match *self {
                WsRejection::MissingUpgradeHeader => 426u16,
                WsRejection::MissingWebSocketKey => 400u16,
            },
    {
        match self {
            WsRejection::MissingUpgradeHeader => 426,
            WsRejection::MissingWebSocketKey => 400,
        }
    }
}

/// Whether the `Upgrade` value `u` asks for a WebSocket: trimmed, it is
/// `websocket` in any ASCII case.
pub open spec fn asks_websocket(u: Option<Seq<char>>) -> bool {
    match u {
        Some(v) => eq_ignore_ascii_case_spec(trim_spec(v), "websocket"@),
        None => false,
    }
}

/// Check a request for a WebSocket upgrade, given its `Upgrade` value
/// (`None` when missing or not visible ASCII) and whether it has a
/// `Sec-WebSocket-Key` header.
pub fn check_websocket_upgrade(upgrade: Option<&str>, has_key: bool) -> (r: Result<(), WsRejection>)
    ensures
        r == if !asks_websocket(
            match upgrade {
                Some(u) => Some(u@),
                None => None,
            },
        ) {
            Err(WsRejection::MissingUpgradeHeader)
        } else if !has_key {
            Err(WsRejection::MissingWebSocketKey)
        } else {
            Ok(())
        },
{
    let asks = match upgrade {
        Some(u) => {
            let v = trim_chars(&chars_of(u));
            chars_eq_ignore_ascii_case(&v, &chars_of("websocket"))
        },
        None => false,
    };
    if !asks {
        return Err(WsRejection::MissingUpgradeHeader);
    }
    if !has_key {
        return Err(WsRejection::MissingWebSocketKey);
    }
    Ok(())
}

} // verus!

verus! {

/// What a handler call does next.  A handler with `n` extractors runs them
/// in order (all but the last read only the request head; the last may read
/// the body); the first one that fails answers with its rejection, and the
/// handler is called only when all have succeeded.
#[derive(Debug, Clone, Copy, PartialEq, Eq)]
pub enum HandlerAction {
    /// Run extractor number `i` (from 0).
    Extract(usize),
    /// Answer with the rejection of the extractor that just failed.
    Reject,
    /// Call the handler with the extracted values.
    CallHandler,
}

/// The next action of a handler call with `n` extractors, after `done` of
/// them have run, the last of which failed when `failed`.
pub open spec fn handler_step_spec(n: usize, done: usize, failed: bool) -> HandlerAction {
    if failed {
        HandlerAction::Reject
    } else if done < n {
        HandlerAction::Extract(done)
    } else {
        HandlerAction::CallHandler
    }
}

/// Decide the next action of a handler call with `n` extractors, after
/// `done` of them have run, the last of which failed when `failed`.
pub fn handler_step(n: usize, done: usize, failed: bool) -> (a: HandlerAction)
    requires
        done <= n,
    ensures
        a == handler_step_spec(n, done, failed),
        failed ==> a == HandlerAction::Reject,
        !failed && done < n ==> a == HandlerAction::Extract(done),
        !failed && done == n ==> a == HandlerAction::CallHandler,
{
    if failed {
        HandlerAction::Reject
    } else if done < n {
        HandlerAction::Extract(done)
    } else {
        HandlerAction::CallHandler
    }
}

/// The actions of a handler call with `n` extractors, from the state after
/// `done` of them have run (the last failing when `failed`), when
/// extraction `k` fails exactly when `failures[k]`.
pub open spec fn handler_run(n: usize, done: usize, failed: bool, failures: Seq<bool>) -> Seq<
    HandlerAction,
>
    decreases n - done,
{
    if failed || done >= n {
        seq![handler_step_spec(n, done, failed)]
    } else {
        seq![handler_step_spec(n, done, failed)] + handler_run(
            n,
            (done + 1) as usize,
            failures[done as int],
            failures,
        )
    }
}

/// The extractions `from..to`, in order.
pub open spec fn extractions(from: usize, to: usize) -> Seq<HandlerAction>
    decreases to - from,
{
    if from >= to {
        seq![]
    } else {
        seq![HandlerAction::Extract(from)] + extractions((from + 1) as usize, to)
    }
}

proof fn lemma_extractions_facts(from: usize, to: usize)
    requires
        from <= to,
    ensures
        extractions(from, to).len() == to - from,
        forall|k: int| 0 <= k < to - from ==> #[trigger] extractions(from, to)[k] == HandlerAction::Extract((from + k) as usize),
    decreases to - from,
{
    if from < to {
        lemma_extractions_facts((from + 1) as usize, to);
        let s = extractions(from, to);
        assert forall|k: int| 0 <= k < to - from implies #[trigger] s[k] == HandlerAction::Extract((from + k) as usize) by {
            if k > 0 {
                assert(s[k] == extractions((from + 1) as usize, to)[k - 1]);
            }
        }
    }
}

proof fn lemma_run_fails_at(n: usize, d: usize, failures: Seq<bool>, i: usize)
    requires
        d <= i < n,
        i < failures.len(),
        failures[i as int],
        forall|k: int| d <= k < i ==> !#[trigger] failures[k],
    ensures
        handler_run(n, d, false, failures) == extractions(d, (i + 1) as usize).push(HandlerAction::Reject),
    decreases i - d,
{
    let rest = handler_run(n, (d + 1) as usize, failures[d as int], failures);
    if d == i {
        assert(rest == seq![HandlerAction::Reject]);
        assert(extractions((d + 1) as usize, (i + 1) as usize) == Seq::<HandlerAction>::empty());
        assert(handler_run(n, d, false, failures) =~= extractions(d, (i + 1) as usize).push(
            HandlerAction::Reject,
        ));
    } else {
        lemma_run_fails_at(n, (d + 1) as usize, failures, i);
        assert(handler_run(n, d, false, failures) =~= extractions(d, (i + 1) as usize).push(
            HandlerAction::Reject,
        ));
    }
}

/// When extraction `i` fails and those before it succeed, a handler call
/// runs extractions `0..=i` in order and then answers with the rejection: it
/// never runs a later extractor (so the body is not read when `i` is not
/// the last) and never calls the handler.
pub proof fn lemma_failed_extraction_stops(n: usize, failures: Seq<bool>, i: usize)
    requires
        i < n,
        i < failures.len(),
        failures[i as int],
        forall|k: int| 0 <= k < i ==> !#[trigger] failures[k],
    ensures
        handler_run(n, 0, false, failures) == extractions(0, (i + 1) as usize).push(HandlerAction::Reject),
        forall|k: int|
            0 <= k < handler_run(n, 0, false, failures).len() ==> match #[trigger] handler_run(
                n,
                0,
                false,
                failures,
            )[k] {
                HandlerAction::Extract(j) => j <= i,
                HandlerAction::Reject => k == i + 1,
                HandlerAction::CallHandler => false,
            },
{
    lemma_run_fails_at(n, 0, failures, i);
    lemma_extractions_facts(0, (i + 1) as usize);
}

proof fn lemma_run_succeeds_from(n: usize, d: usize, failures: Seq<bool>)
    requires
        d <= n,
        n <= failures.len(),
        forall|k: int| d <= k < n ==> !#[trigger] failures[k],
    ensures
        handler_run(n, d, false, failures) == extractions(d, n).push(HandlerAction::CallHandler),
    decreases n - d,
{
    if d < n {
        lemma_run_succeeds_from(n, (d + 1) as usize, failures);
    }
    assert(handler_run(n, d, false, failures) =~= extractions(d, n).push(HandlerAction::CallHandler));
}

/// When every extraction succeeds, a handler call runs the `n` extractions
/// in order and then calls the handler.
pub proof fn lemma_successful_extractions_call_handler(n: usize, failures: Seq<bool>)
    requires
        n <= failures.len(),
        forall|k: int| 0 <= k < n ==> !#[trigger] failures[k],
    ensures
        handler_run(n, 0, false, failures) == extractions(0, n).push(HandlerAction::CallHandler),
{
    lemma_run_succeeds_from(n, 0, failures);
}

} // verus!
