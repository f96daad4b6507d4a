//! Sequences whose elements have pairwise distinct keys.
use vstd::prelude::*;

verus! {

/// No two elements of `s` have the same key.
pub open spec fn unique_by<A, K>(s: Seq<A>, key: spec_fn(A) -> K) -> bool {
    forall|i: int, j: int|
        #![trigger s[i], s[j]]
        0 <= i < s.len() && 0 <= j < s.len() && i != j ==> key(s[i]) != key(s[j])
}

/// Every element of `s` satisfies `q`.
pub open spec fn all<A>(s: Seq<A>, q: spec_fn(A) -> bool) -> bool {
    forall|i: int| 0 <= i < s.len() ==> q(#[trigger] s[i])
}

/// Every element of a filtered sequence comes from the sequence and satisfies the filter.
pub proof fn lemma_filter_from<A>(s: Seq<A>, p: spec_fn(A) -> bool, k: int)
    requires
        0 <= k < s.filter(p).len(),
    ensures
        p(s.filter(p)[k]),
        exists|j: int| 0 <= j < s.len() && s[j] == s.filter(p)[k],
{
    broadcast use vstd::seq_lib::group_filter_ensures;

    let f = s.filter(p);
    assert(f.contains(f[k]));
    s.lemma_filter_contains_rev(p, f[k]);
}

/// Filtering keeps a property of all elements.
pub proof fn lemma_all_filter<A>(s: Seq<A>, p: spec_fn(A) -> bool, q: spec_fn(A) -> bool)
    requires
        all(s, q),
    ensures
        all(s.filter(p), q),
{
    assert forall|k: int| 0 <= k < s.filter(p).len() implies q(#[trigger] s.filter(p)[k]) by {
        lemma_filter_from(s, p, k);
    }
}

/// Filtering keeps keys distinct.
pub proof fn lemma_unique_filter<A, K>(s: Seq<A>, key: spec_fn(A) -> K, p: spec_fn(A) -> bool)
    requires
        unique_by(s, key),
    ensures
        unique_by(s.filter(p), key),
    decreases s.len(),
{
    reveal(Seq::filter);
    if s.len() > 0 {
        let rest = s.drop_last();
        assert(unique_by(rest, key)) by {
            assert forall|i: int, j: int|
                0 <= i < rest.len() && 0 <= j < rest.len() && i != j implies key(rest[i]) != key(
                rest[j],
            ) by {
                assert(rest[i] == s[i] && rest[j] == s[j]);
            }
        }
        lemma_unique_filter(rest, key, p);
        let f = rest.filter(p);
        if p(s.last()) {
            assert forall|k: int| 0 <= k < f.len() implies key(#[trigger] f[k]) != key(s.last()) by {
                lemma_filter_from(rest, p, k);
                let j = choose|j: int| 0 <= j < rest.len() && rest[j] == f[k];
                assert(s[j] == rest[j]);
                assert(s[s.len() - 1] == s.last());
            }
            lemma_unique_push(f, key, s.last());
        }
    }
}

/// Appending an element with a fresh key keeps keys distinct.
pub proof fn lemma_unique_push<A, K>(s: Seq<A>, key: spec_fn(A) -> K, x: A)
    requires
        unique_by(s, key),
        forall|k: int| 0 <= k < s.len() ==> key(#[trigger] s[k]) != key(x),
    ensures
        unique_by(s.push(x), key),
{
    let g = s.push(x);
    assert forall|i: int, j: int|
        0 <= i < g.len() && 0 <= j < g.len() && i != j implies key(g[i]) != key(g[j]) by {
        if i < s.len() && j < s.len() {
            assert(g[i] == s[i] && g[j] == s[j]);
        } else if i < s.len() {
            assert(g[i] == s[i]);
        } else {
            assert(g[j] == s[j]);
        }
    }
}

/// Replacing an element by one with the same key keeps keys distinct.
pub proof fn lemma_unique_update<A, K>(s: Seq<A>, key: spec_fn(A) -> K, j: int, x: A)
    requires
        unique_by(s, key),
        0 <= j < s.len(),
        key(x) == key(s[j]),
    ensures
        unique_by(s.update(j, x), key),
{
    let g = s.update(j, x);
    assert forall|a: int, b: int|
        0 <= a < g.len() && 0 <= b < g.len() && a != b implies key(g[a]) != key(g[b]) by {
        assert(a != j ==> g[a] == s[a]);
        assert(b != j ==> g[b] == s[b]);
    }
}

/// Removing an element keeps keys distinct.
pub proof fn lemma_unique_remove<A, K>(s: Seq<A>, key: spec_fn(A) -> K, p: int)
    requires
        unique_by(s, key),
        0 <= p < s.len(),
    ensures
        unique_by(s.remove(p), key),
{
    let g = s.remove(p);
    assert forall|a: int, b: int|
        0 <= a < g.len() && 0 <= b < g.len() && a != b implies key(g[a]) != key(g[b]) by {
        let a2 = if a < p { a } else { a + 1 };
        let b2 = if b < p { b } else { b + 1 };
        assert(g[a] == s[a2] && g[b] == s[b2]);
    }
}

} // verus!
