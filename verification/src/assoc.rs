//! Association lists: sequences of key-value pairs read as ordered maps.
//!
//! This is the mathematical model of every keyed collection in the crate:
//! the keys are unique, a lookup finds the one pair with the key, an
//! insertion replaces the value in place or appends a new pair last.

use vstd::prelude::*;

verus! {

/// Index of the pair whose key is `k`, or `-1` when there is none.
pub open spec fn assoc_find<K, V>(s: Seq<(K, V)>, k: K) -> int
    decreases s.len(),
{
    if s.len() == 0 {
        -1
    } else if s.last().0 == k {
        s.len() - 1
    } else {
        assoc_find(s.drop_last(), k)
    }
}

/// No key occurs twice.
pub open spec fn unique_keys<K, V>(s: Seq<(K, V)>) -> bool {
    forall|i: int, j: int| 0 <= i < j < s.len() ==> s[i].0 != s[j].0
}

/// The pairs after inserting `k => v`: the value is replaced in place when the
/// key is present, and the pair is appended last otherwise.
pub open spec fn assoc_insert<K, V>(s: Seq<(K, V)>, k: K, v: V) -> Seq<(K, V)> {
    let i = assoc_find(s, k);
    if i >= 0 {
        s.update(i, (k, v))
    } else {
        s.push((k, v))
    }
}

/// The value stored under `k`, if any.
pub open spec fn assoc_get<K, V>(s: Seq<(K, V)>, k: K) -> Option<V> {
    let i = assoc_find(s, k);
    if i >= 0 {
        Some(s[i].1)
    } else {
        None
    }
}

/// Removes the pair at `i` by moving the last pair into its place.
pub open spec fn swap_remove_at<T>(s: Seq<T>, i: int) -> Seq<T> {
    s.update(i, s.last()).drop_last()
}

/// The keys of the pairs, in order.
pub open spec fn assoc_keys<K, V>(s: Seq<(K, V)>) -> Seq<K> {
    s.map_values(|p: (K, V)| p.0)
}

/// What `assoc_find` returns: the index of the key, or `-1` exactly when the key is absent.
pub proof fn lemma_assoc_find<K, V>(s: Seq<(K, V)>, k: K)
    ensures
        -1 <= assoc_find(s, k) < s.len(),
        assoc_find(s, k) >= 0 ==> s[assoc_find(s, k)].0 == k,
        assoc_find(s, k) < 0 <==> (forall|j: int| 0 <= j < s.len() ==> s[j].0 != k),
        forall|j: int| assoc_find(s, k) < j < s.len() ==> s[j].0 != k,
    decreases s.len(),
{
    if s.len() > 0 {
        lemma_assoc_find(s.drop_last(), k);
        if s.last().0 != k {
            assert forall|j: int| 0 <= j < s.len() - 1 implies #[trigger] s[j] == s.drop_last()[j] by {}
        }
    }
}

/// With unique keys, the pair at `i` is the one `assoc_find` finds for its key.
pub proof fn lemma_assoc_find_unique<K, V>(s: Seq<(K, V)>, i: int)
    requires
        unique_keys(s),
        0 <= i < s.len(),
    ensures
        assoc_find(s, s[i].0) == i,
{
    lemma_assoc_find(s, s[i].0);
}

/// Inserting keeps the keys unique, and the inserted value is found under its key.
pub proof fn lemma_assoc_insert<K, V>(s: Seq<(K, V)>, k: K, v: V)
    requires
        unique_keys(s),
    ensures
        unique_keys(assoc_insert(s, k, v)),
        assoc_get(assoc_insert(s, k, v), k) == Some(v),
        forall|k2: K| k2 != k ==> assoc_get(assoc_insert(s, k, v), k2) == assoc_get(s, k2),
{
    lemma_assoc_find(s, k);
    let t = assoc_insert(s, k, v);
    assert(unique_keys(t));
    lemma_assoc_find(t, k);
    if assoc_find(s, k) >= 0 {
        lemma_assoc_find_unique(t, assoc_find(s, k));
    } else {
        lemma_assoc_find_unique(t, s.len() as int);
    }
    assert forall|k2: K| k2 != k implies assoc_get(t, k2) == assoc_get(s, k2) by {
        lemma_assoc_find(s, k2);
        lemma_assoc_find(t, k2);
        if assoc_find(s, k2) >= 0 {
            lemma_assoc_find_unique(t, assoc_find(s, k2));
        }
        if assoc_find(t, k2) >= 0 {
            let j = assoc_find(t, k2);
            assert(j < s.len());
            assert(s[j].0 == k2);
        }
    }
}

/// Removing a pair by swapping keeps the keys unique and forgets exactly that key.
pub proof fn lemma_swap_remove<K, V>(s: Seq<(K, V)>, i: int)
    requires
        unique_keys(s),
        0 <= i < s.len(),
    ensures
        unique_keys(swap_remove_at(s, i)),
        swap_remove_at(s, i).len() == s.len() - 1,
        assoc_get(swap_remove_at(s, i), s[i].0) is None,
        forall|k2: K| k2 != s[i].0 ==> assoc_get(swap_remove_at(s, i), k2) == assoc_get(s, k2),
{
    let t = swap_remove_at(s, i);
    let last = s.len() - 1;
    assert forall|a: int, b: int| 0 <= a < b < t.len() implies t[a].0 != t[b].0 by {
        let sa = if a == i { last } else { a };
        let sb = if b == i { last } else { b };
        assert(t[a] == s[sa]);
        assert(t[b] == s[sb]);
    }
    lemma_assoc_find(t, s[i].0);
    assert forall|j: int| 0 <= j < t.len() implies t[j].0 != s[i].0 by {
        let sj = if j == i { last } else { j };
        assert(t[j] == s[sj]);
    }
    assert forall|k2: K| k2 != s[i].0 implies assoc_get(t, k2) == assoc_get(s, k2) by {
        lemma_assoc_find(s, k2);
        lemma_assoc_find(t, k2);
        if assoc_find(s, k2) >= 0 {
            let j = assoc_find(s, k2);
            let tj = if j == last { i } else { j };
            assert(t[tj] == s[j]);
            lemma_assoc_find_unique(t, tj);
        }
        if assoc_find(t, k2) >= 0 {
            let j = assoc_find(t, k2);
            let sj = if j == i { last } else { j };
            assert(t[j] == s[sj]);
        }
    }
}

/// Removing the pair at `i` keeps the keys unique and forgets exactly that key.
pub proof fn lemma_assoc_remove<K, V>(s: Seq<(K, V)>, i: int)
    requires
        unique_keys(s),
        0 <= i < s.len(),
    ensures
        unique_keys(s.remove(i)),
        assoc_get(s.remove(i), s[i].0) is None,
        forall|k2: K| k2 != s[i].0 ==> assoc_get(s.remove(i), k2) == assoc_get(s, k2),
{
    let t = s.remove(i);
    assert forall|a: int, b: int| 0 <= a < b < t.len() implies t[a].0 != t[b].0 by {
        let sa = if a < i { a } else { a + 1 };
        let sb = if b < i { b } else { b + 1 };
        assert(t[a] == s[sa]);
        assert(t[b] == s[sb]);
    }
    lemma_assoc_find(t, s[i].0);
    assert forall|j: int| 0 <= j < t.len() implies t[j].0 != s[i].0 by {
        let sj = if j < i { j } else { j + 1 };
        assert(t[j] == s[sj]);
    }
    assert forall|k2: K| k2 != s[i].0 implies assoc_get(t, k2) == assoc_get(s, k2) by {
        lemma_assoc_find(s, k2);
        lemma_assoc_find(t, k2);
        if assoc_find(s, k2) >= 0 {
            let j = assoc_find(s, k2);
            let tj = if j < i { j } else { j - 1 };
            assert(t[tj] == s[j]);
            lemma_assoc_find_unique(t, tj);
        }
        if assoc_find(t, k2) >= 0 {
            let j = assoc_find(t, k2);
            let sj = if j < i { j } else { j + 1 };
            assert(t[j] == s[sj]);
        }
    }
}

} // verus!
