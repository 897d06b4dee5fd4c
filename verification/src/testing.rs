//! [`TestResponse`] — a response received by an in-process test client.

use vstd::prelude::*;
use vstd::utf8::{decode_utf8, valid_utf8};

use crate::text::{chars_eq_ignore_ascii_case, chars_of, eq_ignore_ascii_case_spec, pair_views};

verus! {

/// `String::from_utf8`: the bytes as text when they are valid UTF-8.  As its
/// documentation says, it fails exactly on bytes that are not UTF-8, and
/// otherwise keeps the text the bytes encode.
#[verifier::external_body]
fn string_from_utf8(bytes: Vec<u8>) -> (r: Option<String>)
    ensures
        r is Some <==> valid_utf8(bytes@),
        r matches Some(s) ==> s@ == decode_utf8(bytes@),
{
    String::from_utf8(bytes).ok()
}

/// Why the body of a [`TestResponse`] could not be read as requested.
#[derive(Debug, Clone, PartialEq, Eq)]
pub enum BodyError {
    /// The body stream failed, with the error's message.
    Stream(String),
    /// The body is not valid UTF-8.
    Utf8,
    /// The body is not valid JSON of the expected shape, with the error's
    /// message.
    Json(String),
}

/// A response received by a test client: its status, its headers (names in
/// lower case) and its complete body.
pub struct TestResponse {
    status: u16,
    headers: Vec<(String, String)>,
    body: Vec<u8>,
}

impl TestResponse {
    pub closed spec fn status_spec(&self) -> u16 {
        self.status
    }

    pub closed spec fn headers_spec(&self) -> Seq<(Seq<char>, Seq<char>)> {
        pair_views(self.headers@)
    }

    pub closed spec fn body_spec(&self) -> Seq<u8> {
        self.body@
    }

    /// A response with the given status, headers and body.
    pub fn new(status: u16, headers: Vec<(String, String)>, body: Vec<u8>) -> (r: Self)
        ensures
            r.status_spec() == status,
            r.headers_spec() == pair_views(headers@),
            r.body_spec() == body@,
    {
        TestResponse { status, headers, body }
    }

    /// The status code.
    pub fn status(&self) -> (s: u16)
        ensures
            s == self.status_spec(),
    {
        self.status
    }

    /// The headers, as `(name, value)` pairs.
    pub fn headers(&self) -> (h: &Vec<(String, String)>)
        ensures
            pair_views(h@) == self.headers_spec(),
    {
        &self.headers
    }

    /// The value of the first header whose name is `name`, ignoring ASCII
    /// case.
    pub fn header(&self, name: &str) -> (v: Option<String>)
        ensures
            match v {
                Some(x) => exists|i: int|
                    0 <= i < self.headers_spec().len() && #[trigger] eq_ignore_ascii_case_spec(
                        self.headers_spec()[i].0,
                        name@,
                    ) && self.headers_spec()[i].1 == x@ && forall|k: int|
                        0 <= k < i ==> !eq_ignore_ascii_case_spec(self.headers_spec()[k].0, name@),
                None => forall|k: int|
                    0 <= k < self.headers_spec().len() ==> !#[trigger] eq_ignore_ascii_case_spec(
                        self.headers_spec()[k].0,
                        name@,
                    ),
            },
    {
        let n = chars_of(name);
        let mut i: usize = 0;
        while i < self.headers.len()
            invariant
                i <= self.headers.len(),
                n@ == name@,
                forall|k: int|
                    0 <= k < i ==> !#[trigger] eq_ignore_ascii_case_spec(
                        self.headers_spec()[k].0,
                        name@,
                    ),
            decreases self.headers.len() - i,
        {
            let h = chars_of(self.headers[i].0.as_str());
            assert(h@ == self.headers_spec()[i as int].0);
            if chars_eq_ignore_ascii_case(&h, &n) {
                let v = self.headers[i].1.clone();
                assert(self.headers_spec()[i as int].1 == v@);
                return Some(v);
            }
            i = i + 1;
        }
        None
    }

    /// The body bytes.
    pub fn bytes(self) -> (b: Vec<u8>)
        ensures
            b@ == self.body_spec(),
    {
        self.body
    }

    /// The body as text; [`BodyError::Utf8`] when it is not valid UTF-8.
    pub fn text(self) -> (r: Result<String, BodyError>)
        ensures
            valid_utf8(self.body_spec()) ==> (r matches Ok(s) && s@ == decode_utf8(
                self.body_spec(),
            )),
            !valid_utf8(self.body_spec()) ==> r == Err::<String, BodyError>(BodyError::Utf8),
    {
        match string_from_utf8(self.body) {
            Some(s) => Ok(s),
            None => Err(BodyError::Utf8),
        }
    }
}

} // verus!
