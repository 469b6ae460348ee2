//! Lists of records kept as maps by a key of each record.
use vstd::prelude::*;

verus! {

/// The records of a list by their keys; a later record hides an earlier one with the same key.
pub open spec fn keyed_map<K, V, W>(s: Seq<V>, key: spec_fn(V) -> K, val: spec_fn(V) -> W) -> Map<K, W>
    decreases s.len(),
{
    if s.len() == 0 {
        Map::empty()
    } else {
        keyed_map(s.drop_last(), key, val).insert(key(s.last()), val(s.last()))
    }
}

/// No two records of the list share a key.
pub open spec fn keys_unique<K, V>(s: Seq<V>, key: spec_fn(V) -> K) -> bool {
    forall|i: int, j: int| 0 <= i < s.len() && 0 <= j < s.len() && i != j ==> key(s[i]) != key(s[j])
}

pub proof fn lemma_keyed_map_index<K, V, W>(s: Seq<V>, key: spec_fn(V) -> K, val: spec_fn(V) -> W, i: int)
    requires
        keys_unique(s, key),
        0 <= i < s.len(),
    ensures
        keyed_map(s, key, val).contains_key(key(s[i])),
        keyed_map(s, key, val)[key(s[i])] == val(s[i]),
    decreases s.len(),
{
    if i < s.len() - 1 {
        assert(keys_unique(s.drop_last(), key));
        lemma_keyed_map_index(s.drop_last(), key, val, i);
        assert(key(s.last()) != key(s[i]));
    }
}

pub proof fn lemma_keyed_map_domain<K, V, W>(s: Seq<V>, key: spec_fn(V) -> K, val: spec_fn(V) -> W, k: K)
    ensures
        keyed_map(s, key, val).contains_key(k) <==> exists|i: int| 0 <= i < s.len() && key(s[i]) == k,
    decreases s.len(),
{
    if s.len() > 0 {
        lemma_keyed_map_domain(s.drop_last(), key, val, k);
        if exists|i: int| 0 <= i < s.len() && key(s[i]) == k {
            let i = choose|i: int| 0 <= i < s.len() && key(s[i]) == k;
            if i < s.len() - 1 {
                assert(s.drop_last()[i] == s[i]);
            }
        }
        if exists|i: int| 0 <= i < s.len() - 1 && key(s.drop_last()[i]) == k {
            let i = choose|i: int| 0 <= i < s.len() - 1 && key(s.drop_last()[i]) == k;
            assert(s[i] == s.drop_last()[i]);
        }
    }
}

pub proof fn lemma_keyed_map_update<K, V, W>(s: Seq<V>, key: spec_fn(V) -> K, val: spec_fn(V) -> W, i: int, v: V)
    requires
        keys_unique(s, key),
        0 <= i < s.len(),
        key(v) == key(s[i]),
    ensures
        keyed_map(s.update(i, v), key, val) == keyed_map(s, key, val).insert(key(v), val(v)),
        keys_unique(s.update(i, v), key),
    decreases s.len(),
{
    if i == s.len() - 1 {
        assert(s.update(i, v).drop_last() =~= s.drop_last());
        assert(keyed_map(s.update(i, v), key, val) =~= keyed_map(s, key, val).insert(key(v), val(v)));
    } else {
        assert(keys_unique(s.drop_last(), key));
        lemma_keyed_map_update(s.drop_last(), key, val, i, v);
        assert(s.update(i, v).drop_last() =~= s.drop_last().update(i, v));
        assert(key(s.last()) != key(s[i]));
        assert(keyed_map(s.update(i, v), key, val) =~= keyed_map(s, key, val).insert(key(v), val(v)));
    }
    assert forall|a: int, b: int|
        0 <= a < s.len() && 0 <= b < s.len() && a != b implies key(s.update(i, v)[a]) != key(
        s.update(i, v)[b],
    ) by {}
}

pub proof fn lemma_keyed_map_push<K, V, W>(s: Seq<V>, key: spec_fn(V) -> K, val: spec_fn(V) -> W, v: V)
    requires
        keys_unique(s, key),
        !keyed_map(s, key, val).contains_key(key(v)),
    ensures
        keyed_map(s.push(v), key, val) == keyed_map(s, key, val).insert(key(v), val(v)),
        keys_unique(s.push(v), key),
{
    assert(s.push(v).drop_last() =~= s);
    lemma_keyed_map_domain(s, key, val, key(v));
    assert forall|a: int, b: int|
        0 <= a < s.len() + 1 && 0 <= b < s.len() + 1 && a != b implies key(s.push(v)[a]) != key(
        s.push(v)[b],
    ) by {
        if a < s.len() && b < s.len() {
        } else if a == s.len() {
            assert(s.push(v)[b] == s[b]);
        } else {
            assert(s.push(v)[a] == s[a]);
        }
    }
}

/// Changing every record in a way that keeps its key changes the map value by value.
pub proof fn lemma_keyed_map_pointwise<K, V, W>(
    s1: Seq<V>,
    s2: Seq<V>,
    key: spec_fn(V) -> K,
    val: spec_fn(V) -> W,
    f: spec_fn(W) -> W,
)
    requires
        s1.len() == s2.len(),
        forall|j: int| 0 <= j < s1.len() ==> key(#[trigger] s2[j]) == key(s1[j]),
        forall|j: int| 0 <= j < s1.len() ==> val(#[trigger] s2[j]) == f(val(s1[j])),
    ensures
        keyed_map(s2, key, val) == keyed_map(s1, key, val).map_values(f),
    decreases s1.len(),
{
    if s1.len() == 0 {
        assert(keyed_map(s2, key, val) =~= keyed_map(s1, key, val).map_values(f));
    } else {
        lemma_keyed_map_pointwise(s1.drop_last(), s2.drop_last(), key, val, f);
        assert(s2.last() == s2[s2.len() - 1]);
        assert(keyed_map(s2, key, val) =~= keyed_map(s1, key, val).map_values(f));
    }
}

} // verus!
