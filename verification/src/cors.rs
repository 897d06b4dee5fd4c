//! Cross-origin resource sharing (CORS).
//!
//! [`CorsLayer`] holds a CORS configuration and computes the headers of
//! preflight responses and of ordinary responses.  Preflight `OPTIONS`
//! requests are answered `204 No Content` without reaching the inner
//! service.

use vstd::prelude::*;
use vstd::string::*;

use crate::text::{decimal, join_strings, join_with, string_views};
use crate::time::{Duration, NANOS_PER_SEC};

verus! {

/// The status of a preflight response: `204 No Content`.
pub const PREFLIGHT_STATUS: u16 = 204;

/// `Access-Control-Allow-Origin`.
pub open spec fn allow_origin_name() -> Seq<char> {
    "access-control-allow-origin"@
}

/// `Access-Control-Allow-Methods`.
pub open spec fn allow_methods_name() -> Seq<char> {
    "access-control-allow-methods"@
}

/// `Access-Control-Allow-Headers`.
pub open spec fn allow_headers_name() -> Seq<char> {
    "access-control-allow-headers"@
}

/// `Access-Control-Max-Age`.
pub open spec fn max_age_name() -> Seq<char> {
    "access-control-max-age"@
}

/// `Access-Control-Allow-Credentials`.
pub open spec fn allow_credentials_name() -> Seq<char> {
    "access-control-allow-credentials"@
}

/// `Access-Control-Expose-Headers`.
pub open spec fn expose_headers_name() -> Seq<char> {
    "access-control-expose-headers"@
}

/// `Vary`.
pub open spec fn vary_name() -> Seq<char> {
    "vary"@
}

/// The separator of joined header values.
pub open spec fn list_separator() -> Seq<char> {
    ", "@
}

/// Either any value, or only the listed ones.
#[derive(Clone)]
enum AllowList {
    Any,
    Only(Vec<String>),
}

impl AllowList {
    /// `None` for any value, otherwise the listed values.
    spec fn view(&self) -> Option<Seq<Seq<char>>> {
        match self {
            AllowList::Any => None,
            AllowList::Only(v) => Some(string_views(v@)),
        }
    }
}

/// The contents of a [`CorsLayer`].  A list of `None` allows any value.
pub ghost struct CorsView {
    pub origins: Option<Seq<Seq<char>>>,
    pub methods: Option<Seq<Seq<char>>>,
    pub headers: Option<Seq<Seq<char>>>,
    pub expose: Seq<Seq<char>>,
    /// The preflight cache duration, in nanoseconds.
    pub max_age: Option<nat>,
    pub credentials: bool,
}

/// Whether `origin` is allowed.
pub open spec fn origin_allowed(c: CorsView, origin: Seq<char>) -> bool {
    match c.origins {
        None => true,
        Some(list) => list.contains(origin),
    }
}

/// The `Access-Control-Allow-Origin` value: `*` when any origin is allowed
/// and credentials are not, otherwise the request's origin echoed back.
pub open spec fn allow_origin_value(c: CorsView, origin: Seq<char>) -> Seq<char> {
    if c.origins is None && !c.credentials {
        "*"@
    } else {
        origin
    }
}

/// The header `(name, value)` if `value` is not empty.
pub open spec fn nonempty_header(name: Seq<char>, value: Seq<char>) -> Seq<(Seq<char>, Seq<char>)> {
    if value.len() > 0 {
        seq![(name, value)]
    } else {
        seq![]
    }
}

/// The `Access-Control-Allow-Credentials` header, if credentials are
/// allowed.
pub open spec fn credentials_header(c: CorsView) -> Seq<(Seq<char>, Seq<char>)> {
    if c.credentials {
        seq![(allow_credentials_name(), "true"@)]
    } else {
        seq![]
    }
}

/// The headers of a preflight response for a request with the given
/// `Origin`, `Access-Control-Request-Method` and
/// `Access-Control-Request-Headers` values (the empty string standing for a
/// missing origin or request method).
pub open spec fn preflight_headers_spec(
    c: CorsView,
    origin: Seq<char>,
    request_method: Seq<char>,
    request_headers: Option<Seq<char>>,
) -> Seq<(Seq<char>, Seq<char>)> {
    if !origin_allowed(c, origin) {
        seq![]
    } else {
        let methods_value = match c.methods {
            None => request_method,
            Some(list) => join_with(list, list_separator()),
        };
        let headers_value = match c.headers {
            None => request_headers,
            Some(list) => Some(join_with(list, list_separator())),
        };
        seq![(allow_origin_name(), allow_origin_value(c, origin))] + nonempty_header(
            allow_methods_name(),
            methods_value,
        ) + match headers_value {
            Some(v) => nonempty_header(allow_headers_name(), v),
            None => seq![],
        } + match c.max_age {
            Some(d) => seq![(max_age_name(), decimal(d / (NANOS_PER_SEC as nat)))],
            None => seq![],
        } + credentials_header(c) + seq![(vary_name(), "origin"@)]
    }
}

/// The CORS headers added to an ordinary response to a request from
/// `origin`.
pub open spec fn response_headers_spec(c: CorsView, origin: Seq<char>) -> Seq<
    (Seq<char>, Seq<char>),
> {
    if !origin_allowed(c, origin) {
        seq![]
    } else {
        seq![(allow_origin_name(), allow_origin_value(c, origin))] + if c.expose.len() > 0 {
            seq![(expose_headers_name(), join_with(c.expose, list_separator()))]
        } else {
            seq![]
        } + credentials_header(c) + seq![(vary_name(), "origin"@)]
    }
}

/// The `OPTIONS` method.
pub open spec fn options_method() -> Seq<char> {
    "OPTIONS"@
}

/// Whether a request is a CORS preflight: an `OPTIONS` request with both an
/// `Origin` and an `Access-Control-Request-Method` header.
pub fn is_preflight(method: &str, has_origin: bool, has_request_method: bool) -> (r: bool)
    ensures
        r == (method@ == options_method() && has_origin && has_request_method),
{
    method.to_owned() == "OPTIONS".to_owned() && has_origin && has_request_method
}

/// A CORS configuration: which origins, methods and headers are allowed,
/// which response headers are exposed, the preflight cache duration, and
/// whether credentials are allowed.
#[derive(Clone)]
pub struct CorsLayer {
    origins: AllowList,
    methods: AllowList,
    headers: AllowList,
    expose_headers: Vec<String>,
    max_age: Option<Duration>,
    credentials: bool,
}

fn push_header(out: &mut Vec<(String, String)>, name: &str, value: String)
    ensures
        final(out)@.map_values(|h: (String, String)| (h.0@, h.1@)) == old(out)@.map_values(
            |h: (String, String)| (h.0@, h.1@),
        ).push((name@, value@)),
{
    out.push((name.to_owned(), value));
    assert(out@.map_values(|h: (String, String)| (h.0@, h.1@)) == old(out)@.map_values(
        |h: (String, String)| (h.0@, h.1@),
    ).push((name@, value@)));
}

/// The `(name, value)` views of a header list.
pub open spec fn header_views(v: Seq<(String, String)>) -> Seq<(Seq<char>, Seq<char>)> {
    v.map_values(|h: (String, String)| (h.0@, h.1@))
}

impl Default for CorsLayer {
    /// The permissive configuration (see [`CorsLayer::permissive`]).
    fn default() -> (r: Self)
        ensures
            r@ == (CorsView {
                origins: None,
                methods: None,
                headers: None,
                expose: seq![],
                max_age: None,
                credentials: false,
            }),
    {
        CorsLayer::permissive()
    }
}

impl CorsLayer {
    pub closed spec fn view(&self) -> CorsView {
        CorsView {
            origins: self.origins.view(),
            methods: self.methods.view(),
            headers: self.headers.view(),
            expose: string_views(self.expose_headers@),
            max_age: match self.max_age {
                Some(d) => Some(d@),
                None => None,
            },
            credentials: self.credentials,
        }
    }

    /// Allow all origins, methods, and headers.
    pub fn permissive() -> (r: Self)
        ensures
            r@ == (CorsView {
                origins: None,
                methods: None,
                headers: None,
                expose: seq![],
                max_age: None,
                credentials: false,
            }),
    {
        let r = CorsLayer {
            origins: AllowList::Any,
            methods: AllowList::Any,
            headers: AllowList::Any,
            expose_headers: Vec::new(),
            max_age: None,
            credentials: false,
        };
        assert(r@.expose == Seq::<Seq<char>>::empty());
        r
    }

    /// A restrictive configuration: no origin, method or header allowed.
    pub fn new() -> (r: Self)
        ensures
            r@ == (CorsView {
                origins: Some(seq![]),
                methods: Some(seq![]),
                headers: Some(seq![]),
                expose: seq![],
                max_age: None,
                credentials: false,
            }),
    {
        let r = CorsLayer {
            origins: AllowList::Only(Vec::new()),
            methods: AllowList::Only(Vec::new()),
            headers: AllowList::Only(Vec::new()),
            expose_headers: Vec::new(),
            max_age: None,
            credentials: false,
        };
        assert(r@.origins == Some(Seq::<Seq<char>>::empty()));
        assert(r@.methods == Some(Seq::<Seq<char>>::empty()));
        assert(r@.headers == Some(Seq::<Seq<char>>::empty()));
        assert(r@.expose == Seq::<Seq<char>>::empty());
        r
    }

    /// Add an allowed origin.  After "allow any origin", the list restarts
    /// with this origin alone.
    pub fn allow_origin(self, origin: &str) -> (r: Self)
        ensures
            r@ == (CorsView {
                origins: Some(
                    match self@.origins {
                        Some(list) => list.push(origin@),
                        None => seq![origin@],
                    },
                ),
                ..self@
            }),
    {
        let ghost sv = self@;
        let CorsLayer { origins, methods, headers, expose_headers, max_age, credentials } = self;
        let mut list = match origins {
            AllowList::Only(v) => v,
            AllowList::Any => Vec::new(),
        };
        let ghost before = string_views(list@);
        assert(before == match sv.origins {
            Some(l) => l,
            None => Seq::<Seq<char>>::empty(),
        });
        list.push(origin.to_owned());
        assert(string_views(list@) == before.push(origin@));
        assert(Seq::<Seq<char>>::empty().push(origin@) == seq![origin@]);
        CorsLayer { origins: AllowList::Only(list), methods, headers, expose_headers, max_age, credentials }
    }

    /// Allow all origins (`*`).
    pub fn allow_any_origin(self) -> (r: Self)
        ensures
            r@ == (CorsView { origins: None, ..self@ }),
    {
        let mut s = self;
        s.origins = AllowList::Any;
        s
    }

    /// Set the allowed methods, replacing any earlier list.
    pub fn allow_methods(self, methods: Vec<String>) -> (r: Self)
        ensures
            r@ == (CorsView { methods: Some(string_views(methods@)), ..self@ }),
    {
        let mut s = self;
        s.methods = AllowList::Only(methods);
        s
    }

    /// Allow any method (the preflight reflects the requested method).
    pub fn allow_any_method(self) -> (r: Self)
        ensures
            r@ == (CorsView { methods: None, ..self@ }),
    {
        let mut s = self;
        s.methods = AllowList::Any;
        s
    }

    /// Set the allowed headers, replacing any earlier list.
    pub fn allow_headers(self, headers: Vec<String>) -> (r: Self)
        ensures
            r@ == (CorsView { headers: Some(string_views(headers@)), ..self@ }),
    {
        let mut s = self;
        s.headers = AllowList::Only(headers);
        s
    }

    /// Allow any header (the preflight reflects the requested headers).
    pub fn allow_any_header(self) -> (r: Self)
        ensures
            r@ == (CorsView { headers: None, ..self@ }),
    {
        let mut s = self;
        s.headers = AllowList::Any;
        s
    }

    /// Set the headers that browsers may read from the response.
    pub fn expose_headers(self, headers: Vec<String>) -> (r: Self)
        ensures
            r@ == (CorsView { expose: string_views(headers@), ..self@ }),
    {
        let mut s = self;
        s.expose_headers = headers;
        s
    }

    /// Set the `Access-Control-Max-Age` preflight cache duration.
    pub fn max_age(self, duration: Duration) -> (r: Self)
        ensures
            r@ == (CorsView { max_age: Some(duration@), ..self@ }),
    {
        let mut s = self;
        s.max_age = Some(duration);
        s
    }

    /// Allow credentials (cookies, authorization headers).  The origin is
    /// then echoed back instead of `*`.
    pub fn allow_credentials(self) -> (r: Self)
        ensures
            r@ == (CorsView { credentials: true, ..self@ }),
    {
        let mut s = self;
        s.credentials = true;
        s
    }

    /// Returns `true` if the given origin is allowed.
    pub fn is_origin_allowed(&self, origin: &str) -> (r: bool)
        ensures
            r == origin_allowed(self@, origin@),
    {
        match &self.origins {
            AllowList::Any => true,
            AllowList::Only(list) => {
                let o = origin.to_owned();
                let mut i: usize = 0;
                while i < list.len()
                    invariant
                        i <= list.len(),
                        o@ == origin@,
                        self@.origins == Some(string_views(list@)),
                        forall|k: int| 0 <= k < i ==> string_views(list@)[k] != origin@,
                    decreases list.len() - i,
                {
                    if list[i] == o {
                        assert(string_views(list@)[i as int] == origin@);
                        assert(string_views(list@).contains(origin@));
                        assert(self@.origins == Some(string_views(list@)));
                        return true;
                    }
                    i = i + 1;
                }
                false
            },
        }
    }

    /// The `Access-Control-Allow-Origin` value this configuration gives a
    /// request from `origin`, whatever the origin: `*` when any origin is
    /// allowed and credentials are not, otherwise `origin` echoed back.
    /// (Only an allowed origin gets the header at all.)
    pub fn origin_value(&self, origin: &str) -> (v: String)
        ensures
            v@ == allow_origin_value(self@, origin@),
            v@ == if self@.origins is None && !self@.credentials {
                "*"@
            } else {
                origin@
            },
    {
        match &self.origins {
            AllowList::Any => if !self.credentials {
                "*".to_owned()
            } else {
                origin.to_owned()
            },
            AllowList::Only(_) => origin.to_owned(),
        }
    }

    fn push_credentials(&self, out: &mut Vec<(String, String)>)
        ensures
            header_views(final(out)@) == header_views(old(out)@) + credentials_header(self@),
    {
        if self.credentials {
            push_header(out, "access-control-allow-credentials", "true".to_owned());
        }
        assert(header_views(out@) == header_views(old(out)@) + credentials_header(self@));
    }

    /// The headers of the `204 No Content` answer to a preflight request
    /// with the given `Origin`, `Access-Control-Request-Method` and
    /// `Access-Control-Request-Headers` values.  A missing origin or request
    /// method counts as the empty string.  A disallowed origin gets no CORS
    /// header at all.
    pub fn preflight_headers(
        &self,
        origin: Option<&str>,
        request_method: Option<&str>,
        request_headers: Option<&str>,
    ) -> (r: Vec<(String, String)>)
        ensures
            header_views(r@) == preflight_headers_spec(
                self@,
                match origin {
                    Some(o) => o@,
                    None => ""@,
                },
                match request_method {
                    Some(m) => m@,
                    None => ""@,
                },
                match request_headers {
                    Some(h) => Some(h@),
                    None => None,
                },
            ),
    {
        let origin = match origin {
            Some(o) => o,
            None => "",
        };
        let mut out: Vec<(String, String)> = Vec::new();
        assert(header_views(out@) == Seq::<(Seq<char>, Seq<char>)>::empty());
        if !self.is_origin_allowed(origin) {
            return out;
        }
        push_header(&mut out, "access-control-allow-origin", self.origin_value(origin));
        let ghost h1 = header_views(out@);
        let methods_value = match &self.methods {
            AllowList::Any => match request_method {
                Some(m) => m.to_owned(),
                None => "".to_owned(),
            },
            AllowList::Only(list) => join_strings(list, ", "),
        };
        if methods_value.as_str().unicode_len() > 0 {
            push_header(&mut out, "access-control-allow-methods", methods_value);
        }
        let ghost h2 = header_views(out@);
        assert(h2 == h1 + nonempty_header(allow_methods_name(), methods_value@));
        let headers_value: Option<String> = match &self.headers {
            AllowList::Any => match request_headers {
                Some(h) => Some(h.to_owned()),
                None => None,
            },
            AllowList::Only(list) => Some(join_strings(list, ", ")),
        };
        match headers_value {
            Some(v) => {
                if v.as_str().unicode_len() > 0 {
                    push_header(&mut out, "access-control-allow-headers", v);
                }
            },
            None => {},
        }
        let ghost h3 = header_views(out@);
        match self.max_age {
            Some(d) => {
                push_header(&mut out, "access-control-max-age", crate::text::decimal_string(d.as_secs()));
            },
            None => {},
        }
        let ghost h4 = header_views(out@);
        self.push_credentials(&mut out);
        push_header(&mut out, "vary", "origin".to_owned());
        out
    }

    /// The CORS headers added to an ordinary response to a request from
    /// `origin`.  A disallowed origin gets none.
    pub fn response_headers(&self, origin: &str) -> (r: Vec<(String, String)>)
        ensures
            header_views(r@) == response_headers_spec(self@, origin@),
    {
        let mut out: Vec<(String, String)> = Vec::new();
        assert(header_views(out@) == Seq::<(Seq<char>, Seq<char>)>::empty());
        if !self.is_origin_allowed(origin) {
            return out;
        }
        push_header(&mut out, "access-control-allow-origin", self.origin_value(origin));
        if self.expose_headers.len() > 0 {
            push_header(
                &mut out,
                "access-control-expose-headers",
                join_strings(&self.expose_headers, ", "),
            );
        }
        self.push_credentials(&mut out);
        push_header(&mut out, "vary", "origin".to_owned());
        out
    }
}

} // verus!

verus! {

/// With credentials allowed, `Access-Control-Allow-Origin` is never `*`: the
/// request's origin is echoed back.
pub proof fn lemma_credentials_echo_origin(c: CorsView, origin: Seq<char>)
    requires
        c.credentials,
    ensures
        allow_origin_value(c, origin) == origin,
{
}

/// A request from a disallowed origin gets no CORS header, on a preflight
/// and on an ordinary response.
pub proof fn lemma_disallowed_origin_gets_nothing(
    c: CorsView,
    origin: Seq<char>,
    request_method: Seq<char>,
    request_headers: Option<Seq<char>>,
)
    requires
        !origin_allowed(c, origin),
    ensures
        preflight_headers_spec(c, origin, request_method, request_headers).len() == 0,
        response_headers_spec(c, origin).len() == 0,
{
}

/// A request from an allowed origin gets `Access-Control-Allow-Origin`
/// first and `Vary: origin` last, on a preflight and on an ordinary
/// response.
pub proof fn lemma_allowed_origin_headers(
    c: CorsView,
    origin: Seq<char>,
    request_method: Seq<char>,
    request_headers: Option<Seq<char>>,
)
    requires
        origin_allowed(c, origin),
    ensures
        ({
            let p = preflight_headers_spec(c, origin, request_method, request_headers);
            &&& p.len() >= 2
            &&& p[0] == (allow_origin_name(), allow_origin_value(c, origin))
            &&& p.last() == (vary_name(), "origin"@)
        }),
        ({
            let r = response_headers_spec(c, origin);
            &&& r.len() >= 2
            &&& r[0] == (allow_origin_name(), allow_origin_value(c, origin))
            &&& r.last() == (vary_name(), "origin"@)
        }),
{
}

/// The permissive configuration allows every origin and answers with `*`.
pub proof fn lemma_permissive_allows_all(origin: Seq<char>)
    ensures
        ({
            let c = CorsView {
                origins: None,
                methods: None,
                headers: None,
                expose: seq![],
                max_age: None,
                credentials: false,
            };
            origin_allowed(c, origin) && allow_origin_value(c, origin) == "*"@
        }),
{
}

/// An origin added to the allowed list is allowed.
pub proof fn lemma_added_origin_allowed(c: CorsView, added: Seq<char>)
    ensures
        origin_allowed(
            CorsView {
                origins: Some(
                    match c.origins {
                        Some(list) => list.push(added),
                        None => seq![added],
                    },
                ),
                ..c
            },
            added,
        ),
{
    match c.origins {
        Some(list) => {
            assert(list.push(added)[list.len() as int] == added);
        },
        None => {
            assert(seq![added][0] == added);
        },
    }
}

/// An allowed origin with a non-empty expose list gets
/// `Access-Control-Expose-Headers` with the list joined by `, ` on an
/// ordinary response, right after `Access-Control-Allow-Origin`, whether
/// or not credentials are allowed.
pub proof fn lemma_expose_headers_sent(c: CorsView, origin: Seq<char>)
    requires
        origin_allowed(c, origin),
        c.expose.len() > 0,
    ensures
        response_headers_spec(c, origin)[1] == (
            "access-control-expose-headers"@,
            join_with(c.expose, ", "@),
        ),
        response_headers_spec(c, origin).contains(
            ("access-control-expose-headers"@, join_with(c.expose, ", "@)),
        ),
        response_headers_spec(CorsView { credentials: !c.credentials, ..c }, origin)[1]
            == response_headers_spec(c, origin)[1],
{
    let r = response_headers_spec(c, origin);
    assert(r[1] == (expose_headers_name(), join_with(c.expose, list_separator())));
    let c2 = CorsView { credentials: !c.credentials, ..c };
    assert(origin_allowed(c2, origin) == origin_allowed(c, origin));
    assert(response_headers_spec(c2, origin)[1] == (expose_headers_name(), join_with(c.expose, list_separator())));
    assert(r.contains(r[1]));
}

} // verus!
