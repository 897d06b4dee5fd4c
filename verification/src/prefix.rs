//! Path prefixes of nested routers.
//!
//! A prefix is matched segment by segment: `/api` matches `/api` and
//! `/api/users`, but not `/api2`.

use vstd::prelude::*;
use vstd::string::*;

use crate::text::{chars_eq, chars_of, chars_start_with, slash_string, substring};

verus! {

/// `s` without its trailing `/` characters.
pub open spec fn trim_trailing_slashes(s: Seq<char>) -> Seq<char>
    decreases s.len(),
{
    if s.len() > 0 && s.last() == '/' {
        trim_trailing_slashes(s.drop_last())
    } else {
        s
    }
}

/// The normal form of a nesting prefix: it starts with `/` and has no
/// trailing `/`, except for the root prefix `/` itself.
pub open spec fn normal_prefix(p: Seq<char>) -> Seq<char> {
    let t = trim_trailing_slashes(p);
    if t.len() == 0 {
        seq!['/']
    } else if t[0] == '/' {
        t
    } else {
        seq!['/'] + t
    }
}

/// Whether `p` is in normal form.
pub open spec fn is_normal_prefix(p: Seq<char>) -> bool {
    &&& p.len() > 0
    &&& p[0] == '/'
    &&& (p.len() == 1 || p.last() != '/')
}

/// What remains of `path` below `prefix` (non-empty and starting with `/`), or
/// `None` when `path` does not lie under `prefix` at a segment boundary.
pub open spec fn strip_prefix_spec(path: Seq<char>, prefix: Seq<char>) -> Option<Seq<char>> {
    if prefix == seq!['/'] {
        Some(path)
    } else if path == prefix {
        Some(seq!['/'])
    } else if path.len() > prefix.len() && path.take(prefix.len() as int) == prefix
        && path[prefix.len() as int] == '/' {
        Some(path.skip(prefix.len() as int))
    } else {
        None
    }
}

/// The shape of `trim_trailing_slashes(s)`: a prefix of `s`, not ending in
/// `/`, followed in `s` only by slashes.
proof fn lemma_trim_shape(s: Seq<char>)
    ensures
        trim_trailing_slashes(s).len() <= s.len(),
        trim_trailing_slashes(s) == s.take(trim_trailing_slashes(s).len() as int),
        trim_trailing_slashes(s).len() == 0 || trim_trailing_slashes(s).last() != '/',
        forall|k: int|
            trim_trailing_slashes(s).len() <= k < s.len() ==> s[k] == '/',
    decreases s.len(),
{
    if s.len() > 0 && s.last() == '/' {
        lemma_trim_shape(s.drop_last());
        let t = trim_trailing_slashes(s.drop_last());
        assert(s.drop_last().take(t.len() as int) == s.take(t.len() as int));
        assert forall|k: int| t.len() <= k < s.len() implies s[k] == '/' by {
            if k < s.len() - 1 {
                assert(s.drop_last()[k] == s[k]);
            }
        }
    } else {
        assert(s.take(s.len() as int) == s);
    }
}

/// Trimming trailing slashes stops at the last character that is not `/`.
proof fn lemma_trim_at(s: Seq<char>, m: int)
    requires
        0 <= m <= s.len(),
        m == 0 || s[m - 1] != '/',
        forall|k: int| m <= k < s.len() ==> s[k] == '/',
    ensures
        trim_trailing_slashes(s) == s.take(m),
    decreases s.len(),
{
    if s.len() > m {
        lemma_trim_at(s.drop_last(), m);
        assert(s.drop_last().take(m) == s.take(m));
    } else {
        assert(s.take(m) == s);
    }
}

/// Normalise a prefix string: ensure it starts with `/` and has no
/// trailing `/` (except for the root prefix `"/"`).
pub fn normalize_prefix(prefix: &str) -> (r: String)
    ensures
        r@ == normal_prefix(prefix@),
{
    let cs = chars_of(prefix);
    let mut end: usize = cs.len();
    while end > 0 && cs[end - 1] == '/'
        invariant
            cs@ == prefix@,
            end <= cs.len(),
            forall|k: int| end <= k < cs.len() ==> prefix@[k] == '/',
        decreases end,
    {
        end = end - 1;
    }
    proof {
        lemma_trim_at(prefix@, end as int);
    }
    if end == 0 {
        return slash_string();
    }
    let trimmed = substring(prefix, 0, end);
    if cs[0] == '/' {
        trimmed
    } else {
        slash_string().concat(trimmed.as_str())
    }
}

/// Check whether `path` starts with `prefix` at a segment boundary, and if
/// so return the remaining path with a leading `/`.
///
/// - `("/api/users", "/api")` → `Some("/users")`
/// - `("/api", "/api")` → `Some("/")`
/// - `("/api2", "/api")` → `None`
pub fn match_and_strip_prefix(path: &str, prefix: &str) -> (r: Option<String>)
    requires
        prefix@.len() > 0,
        prefix@[0] == '/',
    ensures
        match r {
            Some(s) => strip_prefix_spec(path@, prefix@) == Some(s@),
            None => strip_prefix_spec(path@, prefix@) is None,
        },
{
    let pc = chars_of(prefix);
    let cs = chars_of(path);
    if pc.len() == 1 {
        assert(prefix@ == seq!['/']);
        return Some(substring(path, 0, cs.len()));
    }
    assert(prefix@ != seq!['/']);
    if chars_eq(&cs, &pc) {
        return Some(slash_string());
    }
    if cs.len() > pc.len() && chars_start_with(&cs, &pc) && cs[pc.len()] == '/' {
        return Some(substring(path, pc.len(), cs.len()));
    }
    None
}

/// A normalised prefix is in normal form.
pub proof fn lemma_normal_prefix_is_normal(p: Seq<char>)
    ensures
        is_normal_prefix(normal_prefix(p)),
{
    lemma_trim_shape(p);
}

/// Normalising a prefix twice gives the same prefix as normalising it once.
pub proof fn lemma_normalize_idempotent(p: Seq<char>)
    ensures
        normal_prefix(normal_prefix(p)) == normal_prefix(p),
{
    lemma_normal_prefix_is_normal(p);
    let q = normal_prefix(p);
    if q.len() == 1 {
        assert(q == seq!['/']);
        assert(trim_trailing_slashes(q.drop_last()) == q.drop_last());
    } else {
        assert(trim_trailing_slashes(q) == q);
    }
}

/// Below a prefix other than `/`, the stripped path and the prefix put
/// together give back the request path.
pub proof fn lemma_strip_reassembles(path: Seq<char>, prefix: Seq<char>)
    requires
        prefix.len() > 0,
        prefix[0] == '/',
        prefix != seq!['/'],
        strip_prefix_spec(path, prefix) is Some,
    ensures
        ({
            let rest = strip_prefix_spec(path, prefix).unwrap();
            &&& rest[0] == '/'
            &&& (path == prefix + rest || (path == prefix && rest == seq!['/']))
        }),
{
    if path != prefix {
        let rest = path.skip(prefix.len() as int);
        assert(path == prefix + rest);
    }
}

/// Every path below a prefix `p` other than `/` is forwarded: a request
/// for `p`, `/`, `r` (whatever `r` holds, further slashes included) goes to
/// the nested router with the path `/` followed by `r`; a request for `p`
/// itself goes to it with the path `/`.
pub proof fn lemma_strip_accepts_every_path_below(p: Seq<char>, r: Seq<char>)
    requires
        p.len() > 0,
        p[0] == '/',
        p != seq!['/'],
    ensures
        strip_prefix_spec(p + seq!['/'] + r, p) == Some(seq!['/'] + r),
        strip_prefix_spec(p, p) == Some(seq!['/']),
{
    let path = p + seq!['/'] + r;
    assert(path.len() > p.len());
    assert(path != p);
    assert(path.take(p.len() as int) =~= p);
    assert(path[p.len() as int] == '/');
    assert(path.skip(p.len() as int) =~= seq!['/'] + r);
}

/// A prefix is matched at a segment boundary only: a path that continues a
/// prefix `p` other than `/` with anything but `/` (such as `/api2` under
/// `/api`) is not forwarded.
pub proof fn lemma_strip_refuses_partial_segment(p: Seq<char>, q: Seq<char>)
    requires
        p.len() > 0,
        p[0] == '/',
        p != seq!['/'],
        q.len() > 0,
        q[0] != '/',
    ensures
        strip_prefix_spec(p + q, p) is None,
{
    let path = p + q;
    assert(path.len() > p.len());
    assert(path != p);
    assert(path[p.len() as int] == q[0]);
}

/// Under the root prefix `/` every path is forwarded unchanged.
pub proof fn lemma_strip_root_forwards_everything(path: Seq<char>)
    ensures
        strip_prefix_spec(path, seq!['/']) == Some(path),
{
}

} // verus!
