//! Route tables and request dispatch.
//!
//! A [`RouteTable`] maps request paths to per-method handlers.  Handlers are
//! kept as values of a type parameter `H`, so the table can hold whatever the
//! server stores for a route (a boxed service, a handler slot, an index).
//!
//! Dispatch of a request proceeds in a fixed order:
//!
//! 1. a static route whose path equals the request path;
//! 2. the first parameterized route whose pattern matches the path;
//! 3. the first nested router whose prefix contains the path;
//! 4. the layered service (routes registered before `layer()`), if any;
//! 5. otherwise `404 Not Found`.
//!
//! Within a route, the handler registered for the request method is chosen;
//! a route with handlers but none for the method answers
//! `405 Method Not Allowed`.

use vstd::prelude::*;
use vstd::string::*;

use crate::pattern::{match_segments, RoutePattern, SegmentView};
use crate::prefix::{
    is_normal_prefix, lemma_normal_prefix_is_normal, match_and_strip_prefix, normal_prefix,
    normalize_prefix, strip_prefix_spec,
};
use crate::seqs::{
    first_index, insert_all, insert_keyed, key_is, keys_unique, lemma_first_index_at,
    lemma_first_index_none, lemma_first_index_props, lookup_keyed,
};
use crate::text::{has_char, pair_views, path_segments};

verus! {

/// The method name `GET`.
pub open spec fn get_method() -> Seq<char> {
    seq!['G', 'E', 'T']
}

/// The method name `POST`.
pub open spec fn post_method() -> Seq<char> {
    seq!['P', 'O', 'S', 'T']
}

/// Per-method handler table: at most one handler per HTTP method name.
pub struct MethodRouter<H> {
    handlers: Vec<(String, H)>,
}

impl<H> MethodRouter<H> {
    /// The `(method, handler)` entries, in registration order.
    pub closed spec fn view(&self) -> Seq<(Seq<char>, H)> {
        self.handlers@.map_values(|e: (String, H)| (e.0@, e.1))
    }

    /// Create an empty method router.
    pub fn new() -> (r: Self)
        ensures
            r@ == Seq::<(Seq<char>, H)>::empty(),
    {
        MethodRouter { handlers: Vec::new() }
    }

    /// Register `handler` for requests with method `method`, replacing any
    /// handler registered for it before.
    pub fn insert(&mut self, method: &str, handler: H)
        ensures
            final(self)@ == insert_keyed(old(self)@, method@, handler),
    {
        let m = method.to_owned();
        let ghost k = method@;
        let ghost p: spec_fn((Seq<char>, H)) -> bool = key_is::<H>(k);
        assert(p == key_is::<H>(k));
        let mut i: usize = 0;
        while i < self.handlers.len()
            invariant
                i <= self.handlers.len(),
                self@ == old(self)@,
                m@ == k,
                k == method@,
                p == key_is::<H>(k),
                forall|j: int| 0 <= j < i ==> !p(#[trigger] self@[j]),
            decreases self.handlers.len() - i,
        {
            if self.handlers[i].0 == m {
                proof {
                    assert(p(self@[i as int]));
                    lemma_first_index_at(self@, p, i as int);
                }
                let ghost before = self.handlers@;
                self.handlers.set(i, (m, handler));
                proof {
                    assert(self@ == old(self)@.update(i as int, (k, handler)));
                }
                return ;
            }
            i = i + 1;
        }
        proof {
            lemma_first_index_none(self@, p);
        }
        self.handlers.push((m, handler));
        assert(self@ == old(self)@.push((k, handler)));
    }

    /// Register a handler for GET requests.
    pub fn get(&mut self, handler: H)
        ensures
            final(self)@ == insert_keyed(old(self)@, get_method(), handler),
    {
        proof {
            reveal_strlit("GET");
            assert("GET"@ =~= get_method());
        }
        self.insert("GET", handler);
    }

    /// Register a handler for POST requests.
    pub fn post(&mut self, handler: H)
        ensures
            final(self)@ == insert_keyed(old(self)@, post_method(), handler),
    {
        proof {
            reveal_strlit("POST");
            assert("POST"@ =~= post_method());
        }
        self.insert("POST", handler);
    }

    /// The number of registered handlers.
    pub fn len(&self) -> (n: usize)
        ensures
            n == self@.len(),
    {
        self.handlers.len()
    }

    /// The position of the handler registered for `method`.
    pub fn find(&self, method: &str) -> (r: Option<usize>)
        ensures
            match r {
                Some(i) => first_index(self@, key_is::<H>(method@)) == Some(i as int),
                None => first_index(self@, key_is::<H>(method@)) is None,
            },
    {
        let m = method.to_owned();
        let ghost p: spec_fn((Seq<char>, H)) -> bool = key_is::<H>(method@);
        assert(p == key_is::<H>(method@));
        let mut i: usize = 0;
        while i < self.handlers.len()
            invariant
                i <= self.handlers.len(),
                m@ == method@,
                p == key_is::<H>(method@),
                forall|j: int| 0 <= j < i ==> !p(#[trigger] self@[j]),
            decreases self.handlers.len() - i,
        {
            if self.handlers[i].0 == m {
                proof {
                    assert(self.handlers@[i as int].0@ == m@);
                    assert(self@[i as int].0 == self.handlers@[i as int].0@);
                    assert(self@[i as int].0 == method@);
                    assert(p(self@[i as int]));
                    lemma_first_index_at(self@, p, i as int);
                }
                return Some(i);
            }
            i = i + 1;
        }
        proof {
            lemma_first_index_none(self@, p);
        }
        None
    }

    /// The handler at position `i`.
    pub fn handler(&self, i: usize) -> (h: &H)
        requires
            i < self@.len(),
        ensures
            *h == self@[i as int].1,
    {
        &self.handlers[i].1
    }

    /// Register every handler of `other`, in its order, replacing the
    /// handlers registered here before for the same methods.
    pub fn merge_from(&mut self, other: MethodRouter<H>)
        ensures
            final(self)@ == insert_all(old(self)@, other@),
    {
        let ghost o = other@;
        let ghost n = o.len();
        let mut entries = other.handlers;
        assert(entries@.map_values(|e: (String, H)| (e.0@, e.1)) == o.skip(0));
        assert(o.take(0) =~= Seq::<(Seq<char>, H)>::empty());
        while entries.len() > 0
            invariant
                n == o.len(),
                entries@.len() <= n,
                entries@.map_values(|e: (String, H)| (e.0@, e.1)) == o.skip(n - entries@.len()),
                self@ == insert_all(old(self)@, o.take(n - entries@.len())),
            decreases entries.len(),
        {
            let ghost done = n - entries@.len();
            let ghost rest_before = entries@.map_values(|e: (String, H)| (e.0@, e.1));
            let ghost raw_before = entries@;
            let (m, h) = entries.remove(0);
            proof {
                assert(entries@ == raw_before.remove(0));
                assert(entries@.map_values(|e: (String, H)| (e.0@, e.1)) =~= rest_before.skip(1));
                assert(rest_before.skip(1) =~= o.skip(done + 1));
                assert(rest_before[0] == o[done]);
                assert(o.take(done + 1).drop_last() == o.take(done));
                assert(o.take(done + 1).last() == o[done]);
            }
            self.insert(m.as_str(), h);
        }
        assert(o.take(n as int) == o);
    }

    /// The `(method, handler)` entries, in registration order.
    pub fn into_entries(self) -> (v: Vec<(String, H)>)
        ensures
            v@.map_values(|e: (String, H)| (e.0@, e.1)) == self@,
    {
        self.handlers
    }
}

/// Whether the handler entries `b` are a clone of `a`: the same methods in
/// the same order, each handler a clone of the one it copies.
pub open spec fn handlers_cloned<H: Clone>(a: Seq<(Seq<char>, H)>, b: Seq<(Seq<char>, H)>) -> bool {
    &&& b.len() == a.len()
    &&& forall|j: int| 0 <= j < a.len() ==> #[trigger] b[j].0 == a[j].0 && cloned::<H>(a[j].1, b[j].1)
}

impl<H: Clone> Clone for MethodRouter<H> {
    /// The same methods in the same order, with the handlers cloned.
    fn clone(&self) -> (r: Self)
        ensures
            handlers_cloned(self@, r@),
    {
        let mut handlers: Vec<(String, H)> = Vec::new();
        let mut i: usize = 0;
        while i < self.handlers.len()
            invariant
                i <= self.handlers.len(),
                handlers@.len() == i,
                forall|j: int|
                    0 <= j < i ==> #[trigger] handlers@[j].0@ == self@[j].0 && cloned::<H>(
                        self@[j].1,
                        handlers@[j].1,
                    ),
            decreases self.handlers.len() - i,
        {
            let m = self.handlers[i].0.clone();
            let h = self.handlers[i].1.clone();
            let ghost before = handlers@;
            handlers.push((m, h));
            assert forall|j: int| 0 <= j < i + 1 implies #[trigger] handlers@[j].0@ == self@[j].0
                && cloned::<H>(self@[j].1, handlers@[j].1) by {
                if j < i {
                    assert(handlers@[j] == before[j]);
                }
            }
            i = i + 1;
        }
        let r = MethodRouter { handlers };
        assert(r@.len() == self@.len());
        assert forall|j: int| 0 <= j < self@.len() implies #[trigger] r@[j].0 == self@[j].0
            && cloned::<H>(self@[j].1, r@[j].1) by {
            assert(r@[j] == (r.handlers@[j].0@, r.handlers@[j].1));
        }
        r
    }
}

/// Which handler of a route serves a request method.
pub enum MethodSelection {
    /// The route has no handlers at all.
    Empty,
    /// The handler at this position serves the method.
    Found(usize),
    /// The route has handlers, but none for the method.
    Missing,
}

impl MethodSelection {
    pub open spec fn view(&self) -> ServiceChoice {
        match *self {
            MethodSelection::Empty => ServiceChoice::Empty,
            MethodSelection::Found(i) => ServiceChoice::Found(i as int),
            MethodSelection::Missing => ServiceChoice::Missing,
        }
    }
}

impl<H> MethodRouter<H> {
    /// Which handler serves requests with method `method`.
    pub fn select(&self, method: &str) -> (r: MethodSelection)
        ensures
            r.view() == service_choice(self@, method@),
    {
        if self.handlers.len() == 0 {
            return MethodSelection::Empty;
        }
        match self.find(method) {
            Some(i) => MethodSelection::Found(i),
            None => MethodSelection::Missing,
        }
    }
}

/// The mathematical form of a [`MethodSelection`].
pub ghost enum ServiceChoice {
    /// The route has no handlers at all.
    Empty,
    /// The handler at this position serves the method.
    Found(int),
    /// The route has handlers, but none for the method.
    Missing,
}

/// The handler of `entries` that serves `method`.
pub open spec fn service_choice<H>(entries: Seq<(Seq<char>, H)>, method: Seq<char>) -> ServiceChoice {
    if entries.len() == 0 {
        ServiceChoice::Empty
    } else {
        match first_index(entries, key_is::<H>(method)) {
            Some(i) => ServiceChoice::Found(i),
            None => ServiceChoice::Missing,
        }
    }
}

} // verus!

verus! {

/// The contents of a [`RouteTable`].
pub ghost struct RouteTableView<H> {
    /// Static routes: `(path, handlers)`.
    pub statics: Seq<(Seq<char>, Seq<(Seq<char>, H)>)>,
    /// Parameterized routes: `(pattern, handlers)`, checked in order.
    pub params: Seq<(Seq<SegmentView>, Seq<(Seq<char>, H)>)>,
    /// Nested routers: `(prefix, dispatcher)`, checked in order.
    pub nests: Seq<(Seq<char>, H)>,
    /// The service wrapping the routes registered before `layer()`.
    pub layered: Option<H>,
}

/// The outcome of dispatching a request against a route table.
pub ghost enum RouteMatchView {
    Static { route: int, service: int },
    Param { route: int, service: int, params: Seq<(Seq<char>, Seq<char>)> },
    Nested { nest: int, path: Seq<char> },
    Layered,
    NotFound,
    MethodNotAllowed,
}

/// The outcome of dispatching a request against a route table.
#[derive(Debug)]
pub enum RouteMatch {
    /// Call handler `service` of static route `route`.
    Static { route: usize, service: usize },
    /// Call handler `service` of parameterized route `route`, with the
    /// captured path parameters.
    Param { route: usize, service: usize, params: Vec<(String, String)> },
    /// Forward to nested router `nest`, with the request path replaced by
    /// the part below the nest's prefix.
    Nested { nest: usize, path: String },
    /// Forward to the layered service.
    Layered,
    /// `404 Not Found`.
    NotFound,
    /// `405 Method Not Allowed`.
    MethodNotAllowed,
}

impl RouteMatch {
    pub open spec fn view(&self) -> RouteMatchView {
        match *self {
            RouteMatch::Static { route, service } => RouteMatchView::Static {
                route: route as int,
                service: service as int,
            },
            RouteMatch::Param { route, service, params } => RouteMatchView::Param {
                route: route as int,
                service: service as int,
                params: pair_views(params@),
            },
            RouteMatch::Nested { nest, path } => RouteMatchView::Nested {
                nest: nest as int,
                path: path@,
            },
            RouteMatch::Layered => RouteMatchView::Layered,
            RouteMatch::NotFound => RouteMatchView::NotFound,
            RouteMatch::MethodNotAllowed => RouteMatchView::MethodNotAllowed,
        }
    }
}

/// The predicate "this parameterized route matches `path`".
pub open spec fn pattern_accepts<H>(path: Seq<char>) -> spec_fn(
    (Seq<SegmentView>, Seq<(Seq<char>, H)>),
) -> bool {
    |r: (Seq<SegmentView>, Seq<(Seq<char>, H)>)| match_segments(r.0, path_segments(path)) is Some
}

/// The predicate "`path` lies under this nest's prefix".
pub open spec fn prefix_accepts<H>(path: Seq<char>) -> spec_fn((Seq<char>, H)) -> bool {
    |n: (Seq<char>, H)| strip_prefix_spec(path, n.0) is Some
}

/// How a request with method `method` and path `path` is dispatched by a
/// table with contents `t`.
pub open spec fn dispatch_spec<H>(
    t: RouteTableView<H>,
    method: Seq<char>,
    path: Seq<char>,
) -> RouteMatchView {
    match first_index(t.statics, key_is::<Seq<(Seq<char>, H)>>(path)) {
        Some(i) => match service_choice(t.statics[i].1, method) {
            ServiceChoice::Empty => RouteMatchView::NotFound,
            ServiceChoice::Found(j) => RouteMatchView::Static { route: i, service: j },
            ServiceChoice::Missing => RouteMatchView::MethodNotAllowed,
        },
        None => match first_index(t.params, pattern_accepts::<H>(path)) {
            Some(i) => match service_choice(t.params[i].1, method) {
                ServiceChoice::Empty => RouteMatchView::NotFound,
                ServiceChoice::Found(j) => RouteMatchView::Param {
                    route: i,
                    service: j,
                    params: match_segments(t.params[i].0, path_segments(path)).unwrap(),
                },
                ServiceChoice::Missing => RouteMatchView::MethodNotAllowed,
            },
            None => match first_index(t.nests, prefix_accepts::<H>(path)) {
                Some(i) => RouteMatchView::Nested {
                    nest: i,
                    path: strip_prefix_spec(path, t.nests[i].0).unwrap(),
                },
                None => if t.layered is Some {
                    RouteMatchView::Layered
                } else {
                    RouteMatchView::NotFound
                },
            },
        },
    }
}

/// The handlers of the static route for `path`, if there is one.
pub open spec fn static_handlers<H>(t: RouteTableView<H>, path: Seq<char>) -> Option<
    Seq<(Seq<char>, H)>,
> {
    lookup_keyed(t.statics, path)
}

/// The handlers of a route after `new` is added to the handlers `old` it
/// had (`None` when the route is new): method by method, `new` winning.
pub open spec fn merged_methods<H>(old: Option<Seq<(Seq<char>, H)>>, new: Seq<(Seq<char>, H)>) -> Seq<
    (Seq<char>, H),
> {
    match old {
        Some(s) => insert_all(s, new),
        None => new,
    }
}

/// Whether a path registers a parameterized route (it holds a `:`).
pub open spec fn is_param_path(path: Seq<char>) -> bool {
    path.contains(':')
}

/// The route table of a router.
pub struct RouteTable<H> {
    static_routes: Vec<(String, MethodRouter<H>)>,
    param_routes: Vec<(RoutePattern, MethodRouter<H>)>,
    nested_routers: Vec<(String, H)>,
    layered: Option<H>,
}

/// Whether how the two layered services of merged tables are to be combined.
pub enum LayeredMerge<H> {
    /// The merged table's layered service is settled.
    Settled,
    /// Both tables had a layered service.  The merged table has none yet: the
    /// caller combines the two (trying `last` first, then `first`) and
    /// installs the result with [`RouteTable::set_layered`].
    Combine { last: H, first: H },
}

/// The `(path, handlers)` views of static route entries.
pub open spec fn static_views<H>(v: Seq<(String, MethodRouter<H>)>) -> Seq<
    (Seq<char>, Seq<(Seq<char>, H)>),
> {
    v.map_values(|r: (String, MethodRouter<H>)| (r.0@, r.1@))
}

/// The `(pattern, handlers)` views of parameterized route entries.
pub open spec fn param_views<H>(v: Seq<(RoutePattern, MethodRouter<H>)>) -> Seq<
    (Seq<SegmentView>, Seq<(Seq<char>, H)>),
> {
    v.map_values(|r: (RoutePattern, MethodRouter<H>)| (r.0@, r.1@))
}

/// The `(prefix, dispatcher)` views of nested router entries.
pub open spec fn nest_views<H>(v: Seq<(String, H)>) -> Seq<(Seq<char>, H)> {
    v.map_values(|n: (String, H)| (n.0@, n.1))
}

/// Whether every prefix of `nests` is in normal form.
pub open spec fn nests_normal<H>(nests: Seq<(Seq<char>, H)>) -> bool {
    forall|i: int| 0 <= i < nests.len() ==> is_normal_prefix(#[trigger] nests[i].0)
}

/// Store `services` as the handlers of the static route `p` of `v`.
fn insert_static_entry<H>(v: &mut Vec<(String, MethodRouter<H>)>, p: String, services: MethodRouter<H>)
    ensures
        static_views(final(v)@) == insert_keyed(static_views(old(v)@), p@, services@),
{
    let ghost k = p@;
    let ghost pred = key_is::<Seq<(Seq<char>, H)>>(k);
    let ghost sv = services@;
    let mut i: usize = 0;
    while i < v.len()
        invariant
            i <= v.len(),
            v@ == old(v)@,
            p@ == k,
            sv == services@,
            pred == key_is::<Seq<(Seq<char>, H)>>(k),
            forall|j: int| 0 <= j < i ==> !pred(#[trigger] static_views(v@)[j]),
        decreases v.len() - i,
    {
        if v[i].0 == p {
            proof {
                assert(pred(static_views(v@)[i as int]));
                lemma_first_index_at(static_views(v@), pred, i as int);
            }
            v.set(i, (p, services));
            assert(static_views(v@) == static_views(old(v)@).update(i as int, (k, sv)));
            return ;
        }
        i = i + 1;
    }
    proof {
        lemma_first_index_none(static_views(v@), pred);
    }
    v.push((p, services));
    assert(static_views(v@) == static_views(old(v)@).push((k, sv)));
}

/// Add `services` to the static route `p` of `v`, creating it if needed.
fn add_static_entry<H>(v: &mut Vec<(String, MethodRouter<H>)>, p: String, services: MethodRouter<H>)
    ensures
        static_views(final(v)@) == insert_keyed(
            static_views(old(v)@),
            p@,
            merged_methods(lookup_keyed(static_views(old(v)@), p@), services@),
        ),
{
    let ghost k = p@;
    let ghost pred = key_is::<Seq<(Seq<char>, H)>>(k);
    let mut i: usize = 0;
    while i < v.len()
        invariant
            i <= v.len(),
            v@ == old(v)@,
            p@ == k,
            pred == key_is::<Seq<(Seq<char>, H)>>(k),
            forall|j: int| 0 <= j < i ==> !pred(#[trigger] static_views(v@)[j]),
        decreases v.len() - i,
    {
        if v[i].0 == p {
            let ghost before = static_views(v@);
            proof {
                assert(pred(before[i as int]));
                lemma_first_index_at(before, pred, i as int);
            }
            let ghost old_sv = before[i as int].1;
            let ghost raw = v@;
            let (key, mut mr) = v.remove(i);
            mr.merge_from(services);
            let ghost merged = mr@;
            v.insert(i, (key, mr));
            proof {
                assert(key@ == k);
                assert(merged == insert_all(old_sv, services@));
                assert(v@ =~= raw.update(i as int, v@[i as int]));
                assert(static_views(v@) =~= before.update(i as int, (k, merged)));
            }
            return ;
        }
        i = i + 1;
    }
    proof {
        lemma_first_index_none(static_views(v@), pred);
    }
    let ghost sv = services@;
    v.push((p, services));
    assert(static_views(v@) == static_views(old(v)@).push((k, sv)));
}

impl<H> RouteTable<H> {
    pub closed spec fn view(&self) -> RouteTableView<H> {
        RouteTableView {
            statics: static_views(self.static_routes@),
            params: param_views(self.param_routes@),
            nests: nest_views(self.nested_routers@),
            layered: self.layered,
        }
    }

    /// Static paths are unique and nest prefixes are in normal form.
    #[verifier::type_invariant]
    spec fn wf(&self) -> bool {
        &&& keys_unique(self@.statics)
        &&& nests_normal(self@.nests)
    }

    /// An empty route table.
    pub fn new() -> (r: Self)
        ensures
            r@.statics.len() == 0,
            r@.params.len() == 0,
            r@.nests.len() == 0,
            r@.layered is None,
    {
        RouteTable {
            static_routes: Vec::new(),
            param_routes: Vec::new(),
            nested_routers: Vec::new(),
            layered: None,
        }
    }

    /// Register the handlers `services` for `path`.
    ///
    /// A path holding `:` is a parameterized route, appended after the
    /// existing ones.  Any other path is a static route: when a static route
    /// with the same path exists, `services` are added to its handlers
    /// method by method, replacing a handler registered before for the same
    /// method; otherwise a new static route is added.
    pub fn route(&mut self, path: &str, services: MethodRouter<H>)
        ensures
            final(self)@.layered == old(self)@.layered,
            final(self)@.nests == old(self)@.nests,
            is_param_path(path@) ==> {
                &&& final(self)@.params == old(self)@.params.push(
                    (crate::pattern::parse_pattern(path@), services@),
                )
                &&& final(self)@.statics == old(self)@.statics
            },
            !is_param_path(path@) ==> {
                &&& final(self)@.statics == insert_keyed(
                    old(self)@.statics,
                    path@,
                    merged_methods(lookup_keyed(old(self)@.statics, path@), services@),
                )
                &&& final(self)@.params == old(self)@.params
            },
    {
        proof {
            use_type_invariant(&*self);
        }
        if has_char(path, ':') {
            let pattern = RoutePattern::parse(path);
            let mut params: Vec<(RoutePattern, MethodRouter<H>)> = Vec::new();
            std::mem::swap(&mut params, &mut self.param_routes);
            let ghost entry = (pattern@, services@);
            params.push((pattern, services));
            assert(param_views(params@) == old(self)@.params.push(entry));
            self.param_routes = params;
            return ;
        }
        proof {
            crate::seqs::lemma_insert_keeps_unique(
                self@.statics,
                path@,
                merged_methods(lookup_keyed(self@.statics, path@), services@),
            );
        }
        let mut statics: Vec<(String, MethodRouter<H>)> = Vec::new();
        std::mem::swap(&mut statics, &mut self.static_routes);
        add_static_entry(&mut statics, path.to_owned(), services);
        self.static_routes = statics;
    }

    /// Register the dispatcher `inner` of a router nested under `prefix`
    /// (normalised first).
    pub fn nest(&mut self, prefix: &str, inner: H)
        ensures
            final(self)@.nests == old(self)@.nests.push((normal_prefix(prefix@), inner)),
            final(self)@.statics == old(self)@.statics,
            final(self)@.params == old(self)@.params,
            final(self)@.layered == old(self)@.layered,
    {
        proof {
            use_type_invariant(&*self);
        }
        let norm = normalize_prefix(prefix);
        proof {
            lemma_normal_prefix_is_normal(prefix@);
            lemma_nests_normal_push(self.nested_routers@, (norm, inner));
        }
        let mut nests: Vec<(String, H)> = Vec::new();
        std::mem::swap(&mut nests, &mut self.nested_routers);
        nests.push((norm, inner));
        self.nested_routers = nests;
    }
}

/// Whether the layered service `b` is a clone of `a`: both absent, or both
/// present and `b`'s a clone of `a`'s.
pub open spec fn layered_cloned<H: Clone>(a: Option<H>, b: Option<H>) -> bool {
    match (a, b) {
        (Some(x), Some(y)) => cloned::<H>(x, y),
        (None, None) => true,
        _ => false,
    }
}

/// Whether the table `r` is a clone of `t`: the same static paths,
/// patterns and prefixes in the same order, each with its handlers, nested
/// dispatcher and layered service cloned.
pub open spec fn table_cloned<H: Clone>(t: RouteTableView<H>, r: RouteTableView<H>) -> bool {
    &&& r.statics.len() == t.statics.len()
    &&& forall|i: int|
        0 <= i < t.statics.len() ==> #[trigger] r.statics[i].0 == t.statics[i].0 && handlers_cloned(
            t.statics[i].1,
            r.statics[i].1,
        )
    &&& r.params.len() == t.params.len()
    &&& forall|i: int|
        0 <= i < t.params.len() ==> #[trigger] r.params[i].0 == t.params[i].0 && handlers_cloned(
            t.params[i].1,
            r.params[i].1,
        )
    &&& r.nests.len() == t.nests.len()
    &&& forall|i: int|
        0 <= i < t.nests.len() ==> #[trigger] r.nests[i].0 == t.nests[i].0 && cloned::<H>(
            t.nests[i].1,
            r.nests[i].1,
        )
    &&& layered_cloned(t.layered, r.layered)
}

impl<H: Clone> Clone for RouteTable<H> {
    /// A copy of the table: the same paths, patterns and prefixes, with the
    /// handlers, nested dispatchers and layered service cloned.
    fn clone(&self) -> (r: Self)
        ensures
            table_cloned(self@, r@),
    {
        proof {
            use_type_invariant(self);
        }
        let mut statics: Vec<(String, MethodRouter<H>)> = Vec::new();
        let mut i: usize = 0;
        while i < self.static_routes.len()
            invariant
                i <= self.static_routes.len(),
                statics@.len() == i,
                forall|j: int|
                    0 <= j < i ==> #[trigger] static_views(statics@)[j].0 == self@.statics[j].0
                        && handlers_cloned(self@.statics[j].1, static_views(statics@)[j].1),
            decreases self.static_routes.len() - i,
        {
            let entry = (self.static_routes[i].0.clone(), self.static_routes[i].1.clone());
            let ghost before = statics@;
            statics.push(entry);
            assert forall|j: int| 0 <= j < i + 1 implies #[trigger] static_views(statics@)[j].0
                == self@.statics[j].0 && handlers_cloned(
                self@.statics[j].1,
                static_views(statics@)[j].1,
            ) by {
                if j < i {
                    assert(statics@[j] == before[j]);
                    assert(static_views(before)[j] == static_views(statics@)[j]);
                }
            }
            i = i + 1;
        }
        let mut params: Vec<(RoutePattern, MethodRouter<H>)> = Vec::new();
        let mut i: usize = 0;
        while i < self.param_routes.len()
            invariant
                i <= self.param_routes.len(),
                params@.len() == i,
                forall|j: int|
                    0 <= j < i ==> #[trigger] param_views(params@)[j].0 == self@.params[j].0
                        && handlers_cloned(self@.params[j].1, param_views(params@)[j].1),
            decreases self.param_routes.len() - i,
        {
            let entry = (self.param_routes[i].0.clone(), self.param_routes[i].1.clone());
            let ghost before = params@;
            params.push(entry);
            assert forall|j: int| 0 <= j < i + 1 implies #[trigger] param_views(params@)[j].0
                == self@.params[j].0 && handlers_cloned(
                self@.params[j].1,
                param_views(params@)[j].1,
            ) by {
                if j < i {
                    assert(params@[j] == before[j]);
                    assert(param_views(before)[j] == param_views(params@)[j]);
                }
            }
            i = i + 1;
        }
        let mut nests: Vec<(String, H)> = Vec::new();
        let mut i: usize = 0;
        while i < self.nested_routers.len()
            invariant
                i <= self.nested_routers.len(),
                nests@.len() == i,
                forall|j: int|
                    0 <= j < i ==> #[trigger] nest_views(nests@)[j].0 == self@.nests[j].0
                        && cloned::<H>(self@.nests[j].1, nest_views(nests@)[j].1),
            decreases self.nested_routers.len() - i,
        {
            let entry = (self.nested_routers[i].0.clone(), self.nested_routers[i].1.clone());
            let ghost before = nests@;
            nests.push(entry);
            assert forall|j: int| 0 <= j < i + 1 implies #[trigger] nest_views(nests@)[j].0
                == self@.nests[j].0 && cloned::<H>(self@.nests[j].1, nest_views(nests@)[j].1) by {
                if j < i {
                    assert(nests@[j] == before[j]);
                    assert(nest_views(before)[j] == nest_views(nests@)[j]);
                }
            }
            i = i + 1;
        }
        let layered = match &self.layered {
            Some(h) => Some(h.clone()),
            None => None,
        };
        proof {
            assert forall|a: int, b: int| 0 <= a < b < static_views(statics@).len() implies static_views(statics@)[a].0 != static_views(statics@)[b].0 by {
                assert(static_views(statics@)[a].0 == self@.statics[a].0);
                assert(static_views(statics@)[b].0 == self@.statics[b].0);
            }
            assert forall|j: int| 0 <= j < nest_views(nests@).len() implies is_normal_prefix(#[trigger] nest_views(nests@)[j].0) by {
                assert(nest_views(nests@)[j].0 == self@.nests[j].0);
            }
        }
        RouteTable { static_routes: statics, param_routes: params, nested_routers: nests, layered }
    }
}

/// Appending a nest with a prefix in normal form keeps every prefix in
/// normal form.
proof fn lemma_nests_normal_push<H>(v: Seq<(String, H)>, x: (String, H))
    requires
        nests_normal(nest_views(v)),
        is_normal_prefix(x.0@),
    ensures
        nests_normal(nest_views(v.push(x))),
        nest_views(v.push(x)) == nest_views(v).push((x.0@, x.1)),
{
    assert(nest_views(v.push(x)) =~= nest_views(v).push((x.0@, x.1)));
}

} // verus!

verus! {

impl<H> RouteTable<H> {
    /// Dispatch a request with method `method` and path `path`.
    ///
    /// Static routes are tried first, then parameterized routes in order,
    /// then nested routers in order, then the layered service.
    pub fn dispatch(&self, method: &str, path: &str) -> (r: RouteMatch)
        ensures
            r.view() == dispatch_spec(self@, method@, path@),
    {
        proof {
            use_type_invariant(self);
        }
        let p = path.to_owned();
        let ghost sp = key_is::<Seq<(Seq<char>, H)>>(path@);
        let mut i: usize = 0;
        while i < self.static_routes.len()
            invariant
                i <= self.static_routes.len(),
                p@ == path@,
                sp == key_is::<Seq<(Seq<char>, H)>>(path@),
                forall|j: int| 0 <= j < i ==> !sp(#[trigger] self@.statics[j]),
            decreases self.static_routes.len() - i,
        {
            if self.static_routes[i].0 == p {
                proof {
                    assert(sp(self@.statics[i as int]));
                    lemma_first_index_at(self@.statics, sp, i as int);
                }
                return match self.static_routes[i].1.select(method) {
                    MethodSelection::Empty => RouteMatch::NotFound,
                    MethodSelection::Found(j) => RouteMatch::Static { route: i, service: j },
                    MethodSelection::Missing => RouteMatch::MethodNotAllowed,
                };
            }
            i = i + 1;
        }
        proof {
            lemma_first_index_none(self@.statics, sp);
        }
        let ghost pp = pattern_accepts::<H>(path@);
        let mut i: usize = 0;
        while i < self.param_routes.len()
            invariant
                i <= self.param_routes.len(),
                pp == pattern_accepts::<H>(path@),
                first_index(self@.statics, key_is::<Seq<(Seq<char>, H)>>(path@)) is None,
                forall|j: int| 0 <= j < i ==> !pp(#[trigger] self@.params[j]),
            decreases self.param_routes.len() - i,
        {
            match self.param_routes[i].0.matches(path) {
                Some(params) => {
                    proof {
                        assert(pp(self@.params[i as int]));
                        lemma_first_index_at(self@.params, pp, i as int);
                    }
                    return match self.param_routes[i].1.select(method) {
                        MethodSelection::Empty => RouteMatch::NotFound,
                        MethodSelection::Found(j) => RouteMatch::Param {
                            route: i,
                            service: j,
                            params,
                        },
                        MethodSelection::Missing => RouteMatch::MethodNotAllowed,
                    };
                },
                None => {
                    assert(!pp(self@.params[i as int]));
                },
            }
            i = i + 1;
        }
        proof {
            lemma_first_index_none(self@.params, pp);
        }
        let ghost np = prefix_accepts::<H>(path@);
        let mut i: usize = 0;
        while i < self.nested_routers.len()
            invariant
                i <= self.nested_routers.len(),
                self.wf(),
                np == prefix_accepts::<H>(path@),
                first_index(self@.statics, key_is::<Seq<(Seq<char>, H)>>(path@)) is None,
                first_index(self@.params, pattern_accepts::<H>(path@)) is None,
                forall|j: int| 0 <= j < i ==> !np(#[trigger] self@.nests[j]),
            decreases self.nested_routers.len() - i,
        {
            assert(is_normal_prefix(self@.nests[i as int].0));
            match match_and_strip_prefix(path, self.nested_routers[i].0.as_str()) {
                Some(rest) => {
                    proof {
                        assert(np(self@.nests[i as int]));
                        lemma_first_index_at(self@.nests, np, i as int);
                    }
                    return RouteMatch::Nested { nest: i, path: rest };
                },
                None => {
                    assert(!np(self@.nests[i as int]));
                },
            }
            i = i + 1;
        }
        proof {
            lemma_first_index_none(self@.nests, np);
        }
        if self.layered.is_some() {
            RouteMatch::Layered
        } else {
            RouteMatch::NotFound
        }
    }

    /// The handler `service` of static route `route`.
    pub fn static_service(&self, route: usize, service: usize) -> (h: &H)
        requires
            route < self@.statics.len(),
            service < self@.statics[route as int].1.len(),
        ensures
            *h == self@.statics[route as int].1[service as int].1,
    {
        self.static_routes[route].1.handler(service)
    }

    /// The handler `service` of parameterized route `route`.
    pub fn param_service(&self, route: usize, service: usize) -> (h: &H)
        requires
            route < self@.params.len(),
            service < self@.params[route as int].1.len(),
        ensures
            *h == self@.params[route as int].1[service as int].1,
    {
        self.param_routes[route].1.handler(service)
    }

    /// The dispatcher of nested router `nest`.
    pub fn nested_service(&self, nest: usize) -> (h: &H)
        requires
            nest < self@.nests.len(),
        ensures
            *h == self@.nests[nest as int].1,
    {
        &self.nested_routers[nest].1
    }

    /// The layered service, if `layer()` was applied.
    pub fn layered(&self) -> (h: Option<&H>)
        ensures
            match h {
                Some(x) => self@.layered == Some(*x),
                None => self@.layered is None,
            },
    {
        match &self.layered {
            Some(x) => Some(x),
            None => None,
        }
    }

    /// Remove and return the layered service.
    pub fn take_layered(&mut self) -> (h: Option<H>)
        ensures
            h == old(self)@.layered,
            final(self)@ == (RouteTableView { layered: None::<H>, ..old(self)@ }),
    {
        proof {
            use_type_invariant(&*self);
        }
        let mut h: Option<H> = None;
        std::mem::swap(&mut h, &mut self.layered);
        assert(self@.statics == old(self)@.statics);
        h
    }

    /// Install the layered service.
    pub fn set_layered(&mut self, h: Option<H>)
        ensures
            final(self)@ == (RouteTableView { layered: h, ..old(self)@ }),
    {
        proof {
            use_type_invariant(&*self);
        }
        self.layered = h;
        assert(self@.statics == old(self)@.statics);
    }

    /// Move every route and nested router out of this table into a new one
    /// (which has no layered service).  This table keeps its layered
    /// service and no routes.  Used when `layer()` wraps the routes
    /// registered so far.
    pub fn take_routes(&mut self) -> (r: Self)
        ensures
            r@ == (RouteTableView { layered: None::<H>, ..old(self)@ }),
            final(self)@.statics.len() == 0,
            final(self)@.params.len() == 0,
            final(self)@.nests.len() == 0,
            final(self)@.layered == old(self)@.layered,
    {
        proof {
            use_type_invariant(&*self);
        }
        let mut statics: Vec<(String, MethodRouter<H>)> = Vec::new();
        let mut params: Vec<(RoutePattern, MethodRouter<H>)> = Vec::new();
        let mut nests: Vec<(String, H)> = Vec::new();
        std::mem::swap(&mut statics, &mut self.static_routes);
        std::mem::swap(&mut params, &mut self.param_routes);
        std::mem::swap(&mut nests, &mut self.nested_routers);
        let r = RouteTable {
            static_routes: statics,
            param_routes: params,
            nested_routers: nests,
            layered: None,
        };
        assert(r@.statics == old(self)@.statics);
        assert(r@.nests == old(self)@.nests);
        assert(self@.statics.len() == 0);
        r
    }

    /// Merge `other` into this table; `other` is the router merged last.
    ///
    /// Static routes of `other` replace those of this table with the same
    /// path; parameterized routes and nested routers of `other` are checked
    /// before this table's.  When only one table has a layered service, it
    /// becomes the merged table's; when both have one, the merged table has
    /// none yet and both are handed back to be combined.
    pub fn merge(&mut self, other: RouteTable<H>) -> (r: LayeredMerge<H>)
        ensures
            final(self)@.statics == insert_all(old(self)@.statics, other@.statics),
            final(self)@.params == other@.params + old(self)@.params,
            final(self)@.nests == other@.nests + old(self)@.nests,
            match (old(self)@.layered, other@.layered) {
                (Some(a), Some(b)) => final(self)@.layered is None && r == (LayeredMerge::Combine {
                    last: b,
                    first: a,
                }),
                (Some(a), None) => final(self)@.layered == Some(a) && r is Settled,
                (None, Some(b)) => final(self)@.layered == Some(b) && r is Settled,
                (None, None) => final(self)@.layered is None && r is Settled,
            },
    {
        proof {
            use_type_invariant(&*self);
            use_type_invariant(&other);
        }
        let RouteTable {
            static_routes: mut other_statics,
            param_routes: mut other_params,
            nested_routers: mut other_nests,
            layered: other_layered,
        } = other;
        let mut statics: Vec<(String, MethodRouter<H>)> = Vec::new();
        std::mem::swap(&mut statics, &mut self.static_routes);
        let ghost os = other@.statics;
        let ghost n = os.len();
        while other_statics.len() > 0
            invariant
                n == os.len(),
                other_statics@.len() <= n,
                static_views(other_statics@) == os.skip(n - other_statics@.len()),
                static_views(statics@) == insert_all(
                    old(self)@.statics,
                    os.take(n - other_statics@.len()),
                ),
            decreases other_statics.len(),
        {
            let ghost done = n - other_statics@.len();
            let ghost rest_before = static_views(other_statics@);
            let ghost raw_before = other_statics@;
            let (p, services) = other_statics.remove(0);
            proof {
                assert(other_statics@ == raw_before.remove(0));
                assert(static_views(other_statics@) =~= rest_before.skip(1));
                assert(rest_before.skip(1) =~= os.skip(done + 1));
                assert(rest_before[0] == os[done]);
                assert(os.take(done + 1).drop_last() == os.take(done));
                assert(os.take(done + 1).last() == os[done]);
            }
            insert_static_entry(&mut statics, p, services);
        }
        assert(os.take(n as int) == os);
        proof {
            crate::seqs::lemma_insert_all_keeps_unique(old(self)@.statics, os);
        }
        self.static_routes = statics;
        let ghost my_params = self@.params;
        let ghost my_nests = self@.nests;
        let mut params: Vec<(RoutePattern, MethodRouter<H>)> = Vec::new();
        std::mem::swap(&mut params, &mut self.param_routes);
        other_params.append(&mut params);
        self.param_routes = other_params;
        assert(self@.params == other@.params + my_params);
        let mut nests: Vec<(String, H)> = Vec::new();
        std::mem::swap(&mut nests, &mut self.nested_routers);
        other_nests.append(&mut nests);
        assert(nest_views(other_nests@) == other@.nests + my_nests);
        proof {
            let all = nest_views(other_nests@);
            assert forall|i: int| 0 <= i < all.len() implies is_normal_prefix(
                #[trigger] all[i].0,
            ) by {
                if i < other@.nests.len() {
                    assert(all[i] == other@.nests[i]);
                } else {
                    assert(all[i] == my_nests[i - other@.nests.len()]);
                }
            }
        }
        self.nested_routers = other_nests;
        assert(self@.nests == other@.nests + my_nests);
        let mut mine: Option<H> = None;
        std::mem::swap(&mut mine, &mut self.layered);
        match (mine, other_layered) {
            (Some(a), Some(b)) => LayeredMerge::Combine { last: b, first: a },
            (Some(a), None) => {
                self.layered = Some(a);
                LayeredMerge::Settled
            },
            (None, Some(b)) => {
                self.layered = Some(b);
                LayeredMerge::Settled
            },
            (None, None) => LayeredMerge::Settled,
        }
    }
}

} // verus!

verus! {

/// What a request is finally sent to.
pub ghost enum Resolution<H> {
    /// A route handler, with the captured path parameters.
    Handler(H, Seq<(Seq<char>, Seq<char>)>),
    /// A nested router, with the path below its prefix.
    Nested(H, Seq<char>),
    /// The layered service.
    Layered(H),
    NotFound,
    MethodNotAllowed,
}

/// What a request with method `method` and path `path` is sent to by a
/// table with contents `t`.
pub open spec fn resolve<H>(t: RouteTableView<H>, method: Seq<char>, path: Seq<char>) -> Resolution<
    H,
> {
    match dispatch_spec(t, method, path) {
        RouteMatchView::Static { route, service } => Resolution::Handler(
            t.statics[route].1[service].1,
            seq![],
        ),
        RouteMatchView::Param { route, service, params } => Resolution::Handler(
            t.params[route].1[service].1,
            params,
        ),
        RouteMatchView::Nested { nest, path } => Resolution::Nested(t.nests[nest].1, path),
        RouteMatchView::Layered => Resolution::Layered(t.layered.unwrap()),
        RouteMatchView::NotFound => Resolution::NotFound,
        RouteMatchView::MethodNotAllowed => Resolution::MethodNotAllowed,
    }
}

/// The routes of `first` merged with those of `last` (the router merged
/// last), with layered service `layered`.
pub open spec fn merged_view<H>(
    first: RouteTableView<H>,
    last: RouteTableView<H>,
    layered: Option<H>,
) -> RouteTableView<H> {
    RouteTableView {
        statics: insert_all(first.statics, last.statics),
        params: last.params + first.params,
        nests: last.nests + first.nests,
        layered,
    }
}

/// How the handlers of a route answer `method`, independent of where the
/// route is stored.
pub open spec fn answer<H>(entries: Seq<(Seq<char>, H)>, method: Seq<char>, params: Seq<
    (Seq<char>, Seq<char>),
>) -> Resolution<H> {
    match service_choice(entries, method) {
        ServiceChoice::Empty => Resolution::NotFound,
        ServiceChoice::Found(j) => Resolution::Handler(entries[j].1, params),
        ServiceChoice::Missing => Resolution::MethodNotAllowed,
    }
}

proof fn lemma_resolve_static<H>(t: RouteTableView<H>, method: Seq<char>, path: Seq<char>)
    requires
        lookup_keyed(t.statics, path) is Some,
    ensures
        resolve(t, method, path) == answer(lookup_keyed(t.statics, path).unwrap(), method, seq![]),
{
}

proof fn lemma_resolve_param<H>(t: RouteTableView<H>, method: Seq<char>, path: Seq<char>)
    requires
        lookup_keyed(t.statics, path) is None,
        first_index(t.params, pattern_accepts::<H>(path)) is Some,
    ensures
        ({
            let i = first_index(t.params, pattern_accepts::<H>(path)).unwrap();
            resolve(t, method, path) == answer(
                t.params[i].1,
                method,
                match_segments(t.params[i].0, path_segments(path)).unwrap(),
            )
        }),
{
}

/// Merging routers, the last merged wins for static routes: a request whose
/// path is a static route of the router merged last is answered exactly as
/// that router answers it.
pub proof fn lemma_merge_static_last_wins<H>(
    first: RouteTableView<H>,
    last: RouteTableView<H>,
    layered: Option<H>,
    method: Seq<char>,
    path: Seq<char>,
)
    requires
        keys_unique(last.statics),
        lookup_keyed(last.statics, path) is Some,
    ensures
        resolve(merged_view(first, last, layered), method, path) == resolve(last, method, path),
{
    crate::seqs::lemma_lookup_insert_all(first.statics, last.statics, path);
    lemma_resolve_static(merged_view(first, last, layered), method, path);
    lemma_resolve_static(last, method, path);
}

/// Merging routers, the last merged wins for parameterized routes: when
/// neither router has a static route for the path and the router merged
/// last has a pattern that matches it, the request is answered exactly as
/// that router answers it.
pub proof fn lemma_merge_param_last_wins<H>(
    first: RouteTableView<H>,
    last: RouteTableView<H>,
    layered: Option<H>,
    method: Seq<char>,
    path: Seq<char>,
)
    requires
        keys_unique(last.statics),
        lookup_keyed(first.statics, path) is None,
        lookup_keyed(last.statics, path) is None,
        first_index(last.params, pattern_accepts::<H>(path)) is Some,
    ensures
        resolve(merged_view(first, last, layered), method, path) == resolve(last, method, path),
{
    let m = merged_view(first, last, layered);
    crate::seqs::lemma_lookup_insert_all(first.statics, last.statics, path);
    crate::seqs::lemma_first_index_concat(last.params, first.params, pattern_accepts::<H>(path));
    lemma_first_index_props(last.params, pattern_accepts::<H>(path));
    let i = first_index(last.params, pattern_accepts::<H>(path)).unwrap();
    assert(m.params[i] == last.params[i]);
    lemma_resolve_param(m, method, path);
    lemma_resolve_param(last, method, path);
}

/// Merging routers, the last merged wins for nested routers: when neither
/// router has a route for the path and the router merged last nests a
/// router whose prefix contains it, the request goes to that nested router.
pub proof fn lemma_merge_nest_last_wins<H>(
    first: RouteTableView<H>,
    last: RouteTableView<H>,
    layered: Option<H>,
    method: Seq<char>,
    path: Seq<char>,
)
    requires
        keys_unique(last.statics),
        lookup_keyed(first.statics, path) is None,
        lookup_keyed(last.statics, path) is None,
        first_index(first.params, pattern_accepts::<H>(path)) is None,
        first_index(last.params, pattern_accepts::<H>(path)) is None,
        first_index(last.nests, prefix_accepts::<H>(path)) is Some,
    ensures
        resolve(merged_view(first, last, layered), method, path) == resolve(last, method, path),
{
    let m = merged_view(first, last, layered);
    crate::seqs::lemma_lookup_insert_all(first.statics, last.statics, path);
    crate::seqs::lemma_first_index_concat(last.params, first.params, pattern_accepts::<H>(path));
    crate::seqs::lemma_first_index_concat(last.nests, first.nests, prefix_accepts::<H>(path));
    lemma_first_index_props(last.nests, prefix_accepts::<H>(path));
    let i = first_index(last.nests, prefix_accepts::<H>(path)).unwrap();
    assert(m.nests[i] == last.nests[i]);
}

/// A static route answers requests for its path with the handlers it holds
/// after registration: those registered before for the path, with the new
/// ones added method by method.
pub proof fn lemma_route_registers_static<H>(
    before: Seq<(Seq<char>, Seq<(Seq<char>, H)>)>,
    path: Seq<char>,
    services: Seq<(Seq<char>, H)>,
    params: Seq<(Seq<SegmentView>, Seq<(Seq<char>, H)>)>,
    nests: Seq<(Seq<char>, H)>,
    layered: Option<H>,
    method: Seq<char>,
)
    ensures
        ({
            let merged = merged_methods(lookup_keyed(before, path), services);
            resolve(
                RouteTableView { statics: insert_keyed(before, path, merged), params, nests, layered },
                method,
                path,
            ) == answer(merged, method, seq![])
        }),
{
    let merged = merged_methods(lookup_keyed(before, path), services);
    crate::seqs::lemma_lookup_insert(before, path, merged, path);
    lemma_resolve_static(
        RouteTableView { statics: insert_keyed(before, path, merged), params, nests, layered },
        method,
        path,
    );
}

/// Handlers that serve `method` answer a request with that method.
proof fn lemma_answer_lookup<H>(
    entries: Seq<(Seq<char>, H)>,
    method: Seq<char>,
    params: Seq<(Seq<char>, Seq<char>)>,
)
    requires
        lookup_keyed(entries, method) is Some,
    ensures
        answer(entries, method, params) == Resolution::Handler(
            lookup_keyed(entries, method).unwrap(),
            params,
        ),
{
    lemma_first_index_props(entries, key_is::<H>(method));
}

/// Registering handlers for a static path keeps its handlers for other
/// methods: a request whose method the new handlers serve goes to the new
/// handler, and one whose method only the earlier handlers serve goes to
/// the earlier handler.
pub proof fn lemma_route_merges_methods<H>(
    before: Seq<(Seq<char>, Seq<(Seq<char>, H)>)>,
    path: Seq<char>,
    services: Seq<(Seq<char>, H)>,
    params: Seq<(Seq<SegmentView>, Seq<(Seq<char>, H)>)>,
    nests: Seq<(Seq<char>, H)>,
    layered: Option<H>,
    method: Seq<char>,
)
    requires
        keys_unique(services),
        lookup_keyed(services, method) is Some || (lookup_keyed(before, path) is Some
            && lookup_keyed(lookup_keyed(before, path).unwrap(), method) is Some),
    ensures
        ({
            let merged = merged_methods(lookup_keyed(before, path), services);
            resolve(
                RouteTableView { statics: insert_keyed(before, path, merged), params, nests, layered },
                method,
                path,
            ) == Resolution::Handler(
                match lookup_keyed(services, method) {
                    Some(h) => h,
                    None => lookup_keyed(lookup_keyed(before, path).unwrap(), method).unwrap(),
                },
                seq![],
            )
        }),
{
    let merged = merged_methods(lookup_keyed(before, path), services);
    lemma_route_registers_static(before, path, services, params, nests, layered, method);
    match lookup_keyed(before, path) {
        Some(old) => crate::seqs::lemma_lookup_insert_all(old, services, method),
        None => {},
    }
    lemma_answer_lookup(merged, method, seq![]);
}

/// After `layer()`, every request that no later route claims goes through
/// the layered service: a table with no routes of its own sends every
/// request to it.
pub proof fn lemma_layered_catches_all<H>(t: RouteTableView<H>, method: Seq<char>, path: Seq<char>)
    requires
        t.statics.len() == 0,
        t.params.len() == 0,
        t.nests.len() == 0,
        t.layered is Some,
    ensures
        resolve(t, method, path) == Resolution::Layered(t.layered.unwrap()),
{
}

} // verus!
