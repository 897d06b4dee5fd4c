//! [`RoutePattern`] — a path pattern with named parameters (e.g. `/users/:id`).
//!
//! A pattern is a list of segments; a segment that starts with `:` is a named
//! parameter, every other segment is literal.  A request path matches when it
//! has exactly as many non-empty segments as the pattern and every literal
//! segment is equal to the path segment at the same position.

use vstd::prelude::*;
use vstd::string::*;

use crate::text::{pair_views, path_segments, split_segments, string_views};

verus! {

/// A segment in a route pattern.
#[derive(Debug)]
pub enum Segment {
    /// A literal path segment (e.g. `"users"` in `/users/:id`).
    Static(String),
    /// A named parameter (e.g. `"id"` from `:id`).
    Param(String),
}

/// The mathematical form of a [`Segment`].
pub ghost enum SegmentView {
    Static(Seq<char>),
    Param(Seq<char>),
}

impl Segment {
    pub open spec fn view(self) -> SegmentView {
        match self {
            Segment::Static(s) => SegmentView::Static(s@),
            Segment::Param(s) => SegmentView::Param(s@),
        }
    }
}

/// How one path segment of a pattern is read: `:name` is a parameter called
/// `name`, anything else is literal.
pub open spec fn parse_segment(t: Seq<char>) -> SegmentView {
    if t.len() > 0 && t[0] == ':' {
        SegmentView::Param(t.skip(1))
    } else {
        SegmentView::Static(t)
    }
}

/// The segments of the pattern written as `p`.
pub open spec fn parse_pattern(p: Seq<char>) -> Seq<SegmentView> {
    path_segments(p).map_values(|t: Seq<char>| parse_segment(t))
}

/// The result of matching the segments `path` against the pattern `pat`:
/// `None` when the counts differ or a literal segment differs, otherwise the
/// `(name, value)` pairs of the parameters, in pattern order.
pub open spec fn match_segments(pat: Seq<SegmentView>, path: Seq<Seq<char>>) -> Option<
    Seq<(Seq<char>, Seq<char>)>,
>
    decreases pat.len(),
{
    if pat.len() != path.len() {
        None
    } else if pat.len() == 0 {
        Some(seq![])
    } else {
        match match_segments(pat.drop_last(), path.drop_last()) {
            None => None,
            Some(prev) => match pat.last() {
                SegmentView::Static(e) => if e == path.last() {
                    Some(prev)
                } else {
                    None
                },
                SegmentView::Param(n) => Some(prev.push((n, path.last()))),
            },
        }
    }
}

/// A parsed route pattern supporting named parameters.
///
/// - `/users/:id` matches `/users/42` and captures `id = "42"`.
/// - `/users/:id` does not match `/users` or `/users/42/extra`
///   (segment count must match exactly).
#[derive(Debug)]
pub struct RoutePattern {
    segments: Vec<Segment>,
}

impl Clone for Segment {
    /// A segment of the same kind with the same text.
    fn clone(&self) -> (r: Self)
        ensures
            r.view() == self.view(),
    {
        match self {
            Segment::Static(s) => Segment::Static(s.clone()),
            Segment::Param(s) => Segment::Param(s.clone()),
        }
    }
}

impl Clone for RoutePattern {
    /// A pattern with the same segments.
    fn clone(&self) -> (r: Self)
        ensures
            r@ == self@,
    {
        let mut segments: Vec<Segment> = Vec::new();
        let mut i: usize = 0;
        while i < self.segments.len()
            invariant
                i <= self.segments.len(),
                segments@.map_values(|s: Segment| s.view()) == self@.take(i as int),
            decreases self.segments.len() - i,
        {
            let s = self.segments[i].clone();
            assert(s.view() == self@[i as int]);
            let ghost before = segments@;
            segments.push(s);
            assert(segments@.map_values(|s: Segment| s.view()) =~= before.map_values(
                |s: Segment| s.view(),
            ).push(s.view()));
            assert(self@.take(i + 1) =~= self@.take(i as int).push(self@[i as int]));
            i = i + 1;
        }
        assert(self@.take(self.segments.len() as int) =~= self@);
        RoutePattern { segments }
    }
}

impl RoutePattern {
    /// The segments of this pattern.
    pub closed spec fn view(&self) -> Seq<SegmentView> {
        self.segments@.map_values(|s: Segment| s.view())
    }

    /// Parse a path pattern.
    ///
    /// Segments starting with `:` are named parameters; all others are
    /// literal.  The pattern `/` (or the empty string) has no segments and
    /// only matches the root path.
    pub fn parse(pattern: &str) -> (r: Self)
        ensures
            r@ == parse_pattern(pattern@),
    {
        let parts = split_segments(pattern);
        let mut segments: Vec<Segment> = Vec::new();
        let mut i: usize = 0;
        while i < parts.len()
            invariant
                i <= parts.len(),
                string_views(parts@) == path_segments(pattern@),
                segments@.map_values(|s: Segment| s.view()) == string_views(
                    parts@.take(i as int),
                ).map_values(|t: Seq<char>| parse_segment(t)),
            decreases parts.len() - i,
        {
            let part = &parts[i];
            let ghost t = part@;
            assert(string_views(parts@)[i as int] == t);
            let n = part.as_str().unicode_len();
            let seg = if n > 0 && part.as_str().get_char(0) == ':' {
                Segment::Param(part.as_str().substring_char(1, n).to_owned())
            } else {
                Segment::Static(part.clone())
            };
            assert(seg.view() == parse_segment(t));
            let ghost old_segments = segments@;
            segments.push(seg);
            proof {
                assert(string_views(parts@.take(i + 1)) == string_views(parts@.take(i as int)).push(
                    t,
                ));
                assert(segments@.map_values(|s: Segment| s.view()) == old_segments.map_values(
                    |s: Segment| s.view(),
                ).push(seg.view()));
            }
            i = i + 1;
        }
        assert(parts@.take(parts.len() as int) == parts@);
        RoutePattern { segments }
    }

    /// Try to match a request path against this pattern.
    ///
    /// Returns the `(name, value)` pairs of the parameters if the path
    /// matches, or `None` if the segment count differs or a literal segment
    /// does not match.
    pub fn matches(&self, path: &str) -> (r: Option<Vec<(String, String)>>)
        ensures
            match r {
                Some(params) => match_segments(self@, path_segments(path@)) == Some(
                    pair_views(params@),
                ),
                None => match_segments(self@, path_segments(path@)) is None,
            },
    {
        let parts = split_segments(path);
        let ghost pv = string_views(parts@);
        if parts.len() != self.segments.len() {
            return None;
        }
        let mut params: Vec<(String, String)> = Vec::new();
        let mut i: usize = 0;
        while i < parts.len()
            invariant
                i <= parts.len(),
                parts.len() == self.segments.len(),
                pv == string_views(parts@),
                pv == path_segments(path@),
                match_segments(self@.take(i as int), pv.take(i as int)) == Some(
                    pair_views(params@),
                ),
            decreases parts.len() - i,
        {
            let ghost pat_i = self@.take(i + 1);
            let ghost path_i = pv.take(i + 1);
            assert(pat_i.drop_last() == self@.take(i as int));
            assert(path_i.drop_last() == pv.take(i as int));
            assert(pat_i.last() == self.segments@[i as int].view());
            assert(path_i.last() == parts@[i as int]@);
            match &self.segments[i] {
                Segment::Static(expected) => {
                    if *expected != parts[i] {
                        proof {
                            lemma_match_prefix_none(self@, pv, i + 1);
                        }
                        return None;
                    }
                },
                Segment::Param(name) => {
                    let ghost old_params = params@;
                    params.push((name.clone(), parts[i].clone()));
                    assert(pair_views(params@) == pair_views(old_params).push(
                        (name@, parts@[i as int]@),
                    ));
                },
            }
            i = i + 1;
        }
        assert(self@.take(parts.len() as int) == self@);
        assert(pv.take(parts.len() as int) == pv);
        Some(params)
    }
}

/// When a prefix of a pattern fails to match the same prefix of a path, the
/// whole pattern fails to match the whole path.
pub proof fn lemma_match_prefix_none(pat: Seq<SegmentView>, path: Seq<Seq<char>>, k: int)
    requires
        pat.len() == path.len(),
        0 <= k <= pat.len(),
        match_segments(pat.take(k), path.take(k)) is None,
    ensures
        match_segments(pat, path) is None,
    decreases pat.len() - k,
{
    if k < pat.len() {
        let p2 = pat.take(k + 1);
        let q2 = path.take(k + 1);
        assert(p2.drop_last() == pat.take(k));
        assert(q2.drop_last() == path.take(k));
        lemma_match_prefix_none(pat, path, k + 1);
    } else {
        assert(pat.take(k) == pat);
        assert(path.take(k) == path);
    }
}

/// A pattern always matches the path it was written as: literal segments are
/// equal to themselves and parameters accept any segment.
pub proof fn lemma_pattern_matches_own_text(p: Seq<char>)
    ensures
        match_segments(parse_pattern(p), path_segments(p)) is Some,
{
    lemma_parsed_segments_match(path_segments(p));
}

proof fn lemma_parsed_segments_match(segs: Seq<Seq<char>>)
    ensures
        match_segments(segs.map_values(|t: Seq<char>| parse_segment(t)), segs) is Some,
    decreases segs.len(),
{
    if segs.len() > 0 {
        let pat = segs.map_values(|t: Seq<char>| parse_segment(t));
        assert(pat.drop_last() == segs.drop_last().map_values(|t: Seq<char>| parse_segment(t)));
        lemma_parsed_segments_match(segs.drop_last());
    }
}

} // verus!

verus! {

/// Whether the segment `t` of a pattern's text names a parameter (`:name`).
pub open spec fn is_param_text(t: Seq<char>) -> bool {
    t.len() > 0 && t[0] == ':'
}

/// Whether the pattern segments `ps` fit the path segments `qs`: as many of
/// them, and each literal segment equal to the path segment at its place.
pub open spec fn segments_fit(ps: Seq<Seq<char>>, qs: Seq<Seq<char>>) -> bool {
    &&& ps.len() == qs.len()
    &&& forall|i: int| 0 <= i < ps.len() ==> is_param_text(#[trigger] ps[i]) || ps[i] == qs[i]
}

/// The `(name, value)` pair a pattern segment captures from the path segment
/// at its place, when it is a parameter.
pub open spec fn capture(x: (Seq<char>, Seq<char>)) -> Option<(Seq<char>, Seq<char>)> {
    if is_param_text(x.0) {
        Some((x.0.skip(1), x.1))
    } else {
        None
    }
}

/// The pairs `(ps[i], qs[i])`, in order.
pub open spec fn aligned(ps: Seq<Seq<char>>, qs: Seq<Seq<char>>) -> Seq<(Seq<char>, Seq<char>)> {
    Seq::new(ps.len(), |i: int| (ps[i], qs[i]))
}

/// The captures of the pattern segments `ps` from the path segments `qs`:
/// for each parameter, in order, its name and the path segment at its place.
pub open spec fn captures(ps: Seq<Seq<char>>, qs: Seq<Seq<char>>) -> Seq<(Seq<char>, Seq<char>)> {
    aligned(ps, qs).filter_map(|x: (Seq<char>, Seq<char>)| capture(x))
}

proof fn lemma_segments_closed_form(ps: Seq<Seq<char>>, qs: Seq<Seq<char>>)
    ensures
        (match_segments(ps.map_values(|t: Seq<char>| parse_segment(t)), qs) is Some)
            <==> segments_fit(ps, qs),
        segments_fit(ps, qs) ==> match_segments(ps.map_values(|t: Seq<char>| parse_segment(t)), qs)
            == Some(captures(ps, qs)),
    decreases ps.len(),
{
    let pat = ps.map_values(|t: Seq<char>| parse_segment(t));
    if ps.len() != qs.len() {
        return ;
    }
    if ps.len() == 0 {
        assert(aligned(ps, qs).len() == 0);
        return ;
    }
    let pd = ps.drop_last();
    let qd = qs.drop_last();
    lemma_segments_closed_form(pd, qd);
    assert(pat.drop_last() == pd.map_values(|t: Seq<char>| parse_segment(t)));
    assert(pat.last() == parse_segment(ps.last()));
    let a = aligned(ps, qs);
    assert(a.drop_last() =~= aligned(pd, qd));
    assert(a.last() == (ps.last(), qs.last()));
    let n = ps.len() - 1;
    assert(segments_fit(ps, qs) <==> (segments_fit(pd, qd) && (is_param_text(ps[n]) || ps[n] == qs[n]))) by {
        if segments_fit(ps, qs) {
            assert forall|i: int| 0 <= i < pd.len() implies is_param_text(#[trigger] pd[i]) || pd[i] == qd[i] by {
                assert(pd[i] == ps[i]);
                assert(qd[i] == qs[i]);
            }
            assert(is_param_text(ps[n]) || ps[n] == qs[n]);
        }
        if segments_fit(pd, qd) && (is_param_text(ps[n]) || ps[n] == qs[n]) {
            assert forall|i: int| 0 <= i < ps.len() implies is_param_text(#[trigger] ps[i]) || ps[i] == qs[i] by {
                if i < n {
                    assert(pd[i] == ps[i]);
                    assert(qd[i] == qs[i]);
                }
            }
        }
    }
    if segments_fit(ps, qs) {
        let prev = captures(pd, qd);
        if is_param_text(ps.last()) {
            assert(captures(ps, qs) =~= prev.push((ps.last().skip(1), qs.last())));
        } else {
            assert(captures(ps, qs) =~= prev);
        }
    }
}

/// The closed form of matching a path against the pattern written as `p`:
/// with `ps` the segments of `p` and `qs` those of the path (empty segments
/// ignored on both sides), the path matches exactly when there are as many
/// segments and every literal segment equals the path segment at its place;
/// the captured pairs are then, for each parameter `:name` in order, `name`
/// and the path segment at its place.
pub proof fn lemma_matches_closed_form(p: Seq<char>, path: Seq<char>)
    ensures
        ({
            let ps = path_segments(p);
            let qs = path_segments(path);
            &&& (match_segments(parse_pattern(p), qs) is Some <==> segments_fit(ps, qs))
            &&& (segments_fit(ps, qs) ==> match_segments(parse_pattern(p), qs) == Some(
                captures(ps, qs),
            ))
        }),
{
    lemma_segments_closed_form(path_segments(p), path_segments(path));
}

} // verus!
