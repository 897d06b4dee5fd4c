//! Request identifiers (ULIDs).
//!
//! Each request carries a [`RequestId`]: the one in its `x-request-id`
//! header when that is a valid ULID, otherwise a freshly generated one.  The
//! response carries the identifier back in its `x-request-id` header.

use vstd::prelude::*;

verus! {

/// The 32 digits of Crockford's base 32, in order of value: the decimal
/// digits, then the letters without `I`, `L`, `O` and `U`.
pub open spec fn crockford_alphabet() -> Seq<char> {
    seq![
        '0', '1', '2', '3', '4', '5', '6', '7', '8', '9', 'A', 'B', 'C', 'D', 'E', 'F',
        'G', 'H', 'J', 'K', 'M', 'N', 'P', 'Q', 'R', 'S', 'T', 'V', 'W', 'X', 'Y', 'Z',
    ]
}

/// The value of the base-32 digit `c`, read in either case; `None` when it
/// is not a digit.
pub open spec fn crockford_digit(c: char) -> Option<nat> {
    let u = if 'a' <= c && c <= 'z' {
        ((c as u32) - 32) as char
    } else {
        c
    };
    if exists|i: int| 0 <= i < 32 && crockford_alphabet()[i] == u {
        Some((choose|i: int| 0 <= i < 32 && crockford_alphabet()[i] == u) as nat)
    } else {
        None
    }
}

/// The number the base-32 digits `s` stand for (most significant first),
/// when each of them is a digit.
pub open spec fn crockford_value(s: Seq<char>) -> nat
    decreases s.len(),
{
    if s.len() == 0 {
        0
    } else {
        crockford_value(s.drop_last()) * 32 + match crockford_digit(s.last()) {
            Some(d) => d,
            None => 0,
        }
    }
}

/// The ULID that the text `s` holds, as `ulid::Ulid::from_string` reads it:
/// 26 base-32 digits, in either case, whose value is taken modulo 2^128;
/// `None` for any other text.
pub open spec fn ulid_decode(s: Seq<char>) -> Option<u128> {
    if s.len() == 26 && forall|i: int| 0 <= i < 26 ==> #[trigger] crockford_digit(s[i]) is Some {
        Some((crockford_value(s) as int % 0x1_0000_0000_0000_0000_0000_0000_0000_0000int) as u128)
    } else {
        None
    }
}

/// The text of the ULID `v`, as `ulid::Ulid::to_string` writes it: its 26
/// base-32 digits, most significant first, in upper case.
pub open spec fn ulid_encode(v: u128) -> Seq<char> {
    Seq::new(
        26,
        |i: int| crockford_alphabet()[((v as nat) / vstd::arithmetic::power::pow(32, (25 - i) as nat) as nat) as int % 32],
    )
}

/// `ulid::Ulid::from_string`, read as the ULID's value: the value of 26
/// base-32 digits (in either case), `None` for any other text
/// ([`ulid_decode`]).
#[verifier::external_body]
fn ulid_from_str(s: &str) -> (r: Option<u128>)
    ensures
        r == ulid_decode(s@),
{
    ulid::Ulid::from_string(s).ok().map(|u| u.0)
}

/// `ulid::Ulid::to_string` of the ULID with value `v`: its 26 base-32
/// digits in upper case ([`ulid_encode`]), which `ulid::Ulid::from_string`
/// reads back as `v`.
#[verifier::external_body]
fn ulid_text(v: u128) -> (s: String)
    ensures
        s@ == ulid_encode(v),
        ulid_decode(s@) == Some(v),
{
    ulid::Ulid(v).to_string()
}

/// `ulid::Ulid::new`: a fresh ULID from the current time and randomness.
/// Nothing is stated of its value.
#[verifier::external_body]
fn ulid_fresh() -> u128 {
    ulid::Ulid::new().0
}

/// A request identifier: a ULID.
#[derive(Clone, Copy, PartialEq, Eq, Hash, Debug)]
pub struct RequestId(u128);

impl RequestId {
    /// The ULID's value.
    pub closed spec fn view(&self) -> u128 {
        self.0
    }

    /// A fresh identifier.
    pub fn new() -> Self {
        RequestId(ulid_fresh())
    }

    /// Parse an identifier from its ULID text; `None` when `s` is not a
    /// ULID.
    pub fn from_string(s: &str) -> (r: Option<Self>)
        ensures
            match r {
                Some(id) => ulid_decode(s@) == Some(id@),
                None => ulid_decode(s@) is None,
            },
    {
        match ulid_from_str(s) {
            Some(v) => Some(RequestId(v)),
            None => None,
        }
    }

    /// The identifier of a request whose `x-request-id` value is `header`
    /// (`None` when missing or not visible ASCII): the ULID it holds, or a
    /// fresh one when it holds none.
    pub fn from_header_or_new(header: Option<&str>) -> (r: Self)
        ensures
            match header {
                Some(h) => match ulid_decode(h@) {
                    Some(v) => r@ == v,
                    None => true,
                },
                None => true,
            },
    {
        match header {
            Some(h) => match RequestId::from_string(h) {
                Some(id) => id,
                None => RequestId::new(),
            },
            None => RequestId::new(),
        }
    }

    /// The ULID text of this identifier (26 characters), which
    /// [`from_string`](Self::from_string) reads back as this identifier.
    pub fn to_string(&self) -> (s: String)
        ensures
            s@ == ulid_encode(self@),
            s@.len() == 26,
            ulid_decode(s@) == Some(self@),
    {
        ulid_text(self.0)
    }
}

/// A layer that gives each request a [`RequestId`] and echoes it in the
/// response's `x-request-id` header.
#[derive(Clone, Copy, Default, Debug)]
pub struct RequestIdLayer {
    _private: (),
}

impl RequestIdLayer {
    /// Create the layer.
    pub fn new() -> Self {
        RequestIdLayer { _private: () }
    }
}

} // verus!
