//! Facts about searching and keyed updates of sequences.

use vstd::prelude::*;

verus! {

/// The index of the first element of `s` that satisfies `p`.
pub open spec fn first_index<A>(s: Seq<A>, p: spec_fn(A) -> bool) -> Option<int>
    decreases s.len(),
{
    if s.len() == 0 {
        None
    } else if p(s[0]) {
        Some(0)
    } else {
        match first_index(s.skip(1), p) {
            Some(i) => Some(i + 1),
            None => None,
        }
    }
}

/// `first_index` is the position of the first element that satisfies `p`.
pub proof fn lemma_first_index_at<A>(s: Seq<A>, p: spec_fn(A) -> bool, i: int)
    requires
        0 <= i < s.len(),
        p(s[i]),
        forall|k: int| 0 <= k < i ==> !p(#[trigger] s[k]),
    ensures
        first_index(s, p) == Some(i),
    decreases s.len(),
{
    if i > 0 {
        assert(!p(s[0]));
        assert forall|k: int| 0 <= k < i - 1 implies !p(#[trigger] s.skip(1)[k]) by {
            assert(s.skip(1)[k] == s[k + 1]);
        }
        assert(s.skip(1)[i - 1] == s[i]);
        lemma_first_index_at(s.skip(1), p, i - 1);
    }
}

/// `first_index` is `None` when no element satisfies `p`.
pub proof fn lemma_first_index_none<A>(s: Seq<A>, p: spec_fn(A) -> bool)
    requires
        forall|k: int| 0 <= k < s.len() ==> !p(#[trigger] s[k]),
    ensures
        first_index(s, p) is None,
    decreases s.len(),
{
    if s.len() > 0 {
        assert(!p(s[0]));
        assert forall|k: int| 0 <= k < s.len() - 1 implies !p(#[trigger] s.skip(1)[k]) by {
            assert(s.skip(1)[k] == s[k + 1]);
        }
        lemma_first_index_none(s.skip(1), p);
    }
}

/// What `first_index` returns is an element that satisfies `p`, with none
/// before it.
pub proof fn lemma_first_index_props<A>(s: Seq<A>, p: spec_fn(A) -> bool)
    ensures
        match first_index(s, p) {
            Some(i) => 0 <= i < s.len() && p(s[i]) && forall|k: int|
                0 <= k < i ==> !p(#[trigger] s[k]),
            None => forall|k: int| 0 <= k < s.len() ==> !p(#[trigger] s[k]),
        },
    decreases s.len(),
{
    if s.len() > 0 {
        lemma_first_index_props(s.skip(1), p);
        if !p(s[0]) {
            match first_index(s.skip(1), p) {
                Some(i) => {
                    assert(s.skip(1)[i] == s[i + 1]);
                    assert forall|k: int| 0 <= k < i + 1 implies !p(#[trigger] s[k]) by {
                        if k > 0 {
                            assert(s.skip(1)[k - 1] == s[k]);
                        }
                    }
                },
                None => {
                    assert forall|k: int| 0 <= k < s.len() implies !p(#[trigger] s[k]) by {
                        if k > 0 {
                            assert(s.skip(1)[k - 1] == s[k]);
                        }
                    }
                },
            }
        }
    }
}

/// The first element of `a + b` that satisfies `p` is the first one of `a`
/// if `a` has any, otherwise the first one of `b`.
pub proof fn lemma_first_index_concat<A>(a: Seq<A>, b: Seq<A>, p: spec_fn(A) -> bool)
    ensures
        first_index(a + b, p) == match first_index(a, p) {
            Some(i) => Some(i),
            None => match first_index(b, p) {
                Some(j) => Some(a.len() + j),
                None => None,
            },
        },
{
    lemma_first_index_props(a, p);
    lemma_first_index_props(b, p);
    match first_index(a, p) {
        Some(i) => {
            assert((a + b)[i] == a[i]);
            assert forall|k: int| 0 <= k < i implies !p(#[trigger] (a + b)[k]) by {
                assert((a + b)[k] == a[k]);
            }
            lemma_first_index_at(a + b, p, i);
        },
        None => match first_index(b, p) {
            Some(j) => {
                assert((a + b)[a.len() + j] == b[j]);
                assert forall|k: int| 0 <= k < a.len() + j implies !p(#[trigger] (a + b)[k]) by {
                    if k < a.len() {
                        assert((a + b)[k] == a[k]);
                    } else {
                        assert((a + b)[k] == b[k - a.len()]);
                    }
                }
                lemma_first_index_at(a + b, p, a.len() + j);
            },
            None => {
                assert forall|k: int| 0 <= k < (a + b).len() implies !p(#[trigger] (a + b)[k]) by {
                    if k < a.len() {
                        assert((a + b)[k] == a[k]);
                    } else {
                        assert((a + b)[k] == b[k - a.len()]);
                    }
                }
                lemma_first_index_none(a + b, p);
            },
        },
    }
}

} // verus!

verus! {

/// The predicate "the key of this entry is `k`".
pub open spec fn key_is<V>(k: Seq<char>) -> spec_fn((Seq<char>, V)) -> bool {
    |e: (Seq<char>, V)| e.0 == k
}

/// The value stored under `k` in the keyed sequence `s` (its first entry
/// with that key).
pub open spec fn lookup_keyed<V>(s: Seq<(Seq<char>, V)>, k: Seq<char>) -> Option<V> {
    match first_index(s, key_is(k)) {
        Some(i) => Some(s[i].1),
        None => None,
    }
}

/// `s` with `v` stored under `k`: the entry with key `k` is replaced in
/// place, or a new entry is appended when there is none.
pub open spec fn insert_keyed<V>(s: Seq<(Seq<char>, V)>, k: Seq<char>, v: V) -> Seq<
    (Seq<char>, V),
> {
    match first_index(s, key_is(k)) {
        Some(i) => s.update(i, (k, v)),
        None => s.push((k, v)),
    }
}

/// `s` with every entry of `o` stored into it, in order.
pub open spec fn insert_all<V>(s: Seq<(Seq<char>, V)>, o: Seq<(Seq<char>, V)>) -> Seq<
    (Seq<char>, V),
>
    decreases o.len(),
{
    if o.len() == 0 {
        s
    } else {
        insert_keyed(insert_all(s, o.drop_last()), o.last().0, o.last().1)
    }
}

/// No key occurs twice in `s`.
pub open spec fn keys_unique<V>(s: Seq<(Seq<char>, V)>) -> bool {
    forall|i: int, j: int| 0 <= i < j < s.len() ==> s[i].0 != s[j].0
}

/// A lookup after an insertion sees the inserted value under its key and
/// the old values under every other key.
pub proof fn lemma_lookup_insert<V>(s: Seq<(Seq<char>, V)>, k: Seq<char>, v: V, k2: Seq<char>)
    ensures
        lookup_keyed(insert_keyed(s, k, v), k2) == if k2 == k {
            Some(v)
        } else {
            lookup_keyed(s, k2)
        },
{
    let p = key_is::<V>(k);
    let p2 = key_is::<V>(k2);
    lemma_first_index_props(s, p);
    lemma_first_index_props(s, p2);
    match first_index(s, p) {
        Some(i) => {
            let t = s.update(i, (k, v));
            assert forall|m: int| 0 <= m < s.len() implies p2(#[trigger] t[m]) == p2(s[m]) by {
                if m == i {
                    assert(t[m].0 == s[m].0);
                }
            }
            if k2 == k {
                assert forall|m: int| 0 <= m < i implies !p2(#[trigger] t[m]) by {
                    assert(p2(t[m]) == p2(s[m]));
                }
                assert(p2(t[i]));
                lemma_first_index_at(t, p2, i);
            } else {
                match first_index(s, p2) {
                    Some(j) => {
                        assert forall|m: int| 0 <= m < j implies !p2(#[trigger] t[m]) by {
                            assert(p2(t[m]) == p2(s[m]));
                        }
                        assert(p2(t[j]) == p2(s[j]));
                        lemma_first_index_at(t, p2, j);
                        assert(j != i);
                    },
                    None => {
                        assert forall|m: int| 0 <= m < t.len() implies !p2(#[trigger] t[m]) by {
                            assert(p2(t[m]) == p2(s[m]));
                        }
                        lemma_first_index_none(t, p2);
                    },
                }
            }
        },
        None => {
            let t = s.push((k, v));
            assert(t == s + seq![(k, v)]);
            lemma_first_index_concat(s, seq![(k, v)], p2);
            if k2 == k {
                lemma_first_index_at(seq![(k, v)], p2, 0);
            } else {
                lemma_first_index_none(seq![(k, v)], p2);
                match first_index(s, p2) {
                    Some(j) => {
                        assert(t[j] == s[j]);
                    },
                    None => {},
                }
            }
        },
    }
}

/// Insertion keeps keys unique.
pub proof fn lemma_insert_keeps_unique<V>(s: Seq<(Seq<char>, V)>, k: Seq<char>, v: V)
    requires
        keys_unique(s),
    ensures
        keys_unique(insert_keyed(s, k, v)),
{
    let p = key_is::<V>(k);
    lemma_first_index_props(s, p);
    match first_index(s, p) {
        Some(i) => {
            let t = s.update(i, (k, v));
            assert forall|a: int, b: int| 0 <= a < b < t.len() implies t[a].0 != t[b].0 by {
                assert(t[a].0 == s[a].0);
                assert(t[b].0 == s[b].0);
            }
        },
        None => {
            let t = s.push((k, v));
            assert forall|a: int, b: int| 0 <= a < b < t.len() implies t[a].0 != t[b].0 by {
                if b == s.len() {
                    assert(!p(s[a]));
                }
            }
        },
    }
}

/// Inserting many entries keeps keys unique.
pub proof fn lemma_insert_all_keeps_unique<V>(s: Seq<(Seq<char>, V)>, o: Seq<(Seq<char>, V)>)
    requires
        keys_unique(s),
    ensures
        keys_unique(insert_all(s, o)),
    decreases o.len(),
{
    if o.len() > 0 {
        lemma_insert_all_keeps_unique(s, o.drop_last());
        lemma_insert_keeps_unique(insert_all(s, o.drop_last()), o.last().0, o.last().1);
    }
}

/// After storing every entry of `o` (whose keys are unique) into `s`, a
/// key of `o` holds `o`'s value and every other key holds `s`'s value.
pub proof fn lemma_lookup_insert_all<V>(
    s: Seq<(Seq<char>, V)>,
    o: Seq<(Seq<char>, V)>,
    k: Seq<char>,
)
    requires
        keys_unique(o),
    ensures
        lookup_keyed(insert_all(s, o), k) == match lookup_keyed(o, k) {
            Some(v) => Some(v),
            None => lookup_keyed(s, k),
        },
    decreases o.len(),
{
    if o.len() > 0 {
        let o1 = o.drop_last();
        let last = o.last();
        assert(keys_unique(o1));
        lemma_lookup_insert_all(s, o1, k);
        lemma_lookup_insert(insert_all(s, o1), last.0, last.1, k);
        let p = key_is::<V>(k);
        assert(o == o1 + seq![last]);
        lemma_first_index_concat(o1, seq![last], p);
        if k == last.0 {
            lemma_first_index_props(o1, p);
            assert forall|m: int| 0 <= m < o1.len() implies !p(#[trigger] o1[m]) by {
                assert(o1[m] == o[m]);
                assert(o[m].0 != o[o.len() - 1].0);
            }
            lemma_first_index_none(o1, p);
            lemma_first_index_at(seq![last], p, 0);
        } else {
            lemma_first_index_none(seq![last], p);
            match first_index(o1, p) {
                Some(j) => {
                    lemma_first_index_props(o1, p);
                    assert(o[j] == o1[j]);
                },
                None => {},
            }
        }
    }
}

} // verus!
