//! Keyed sequences.
//!
//! Both stores hold their records in creation order while promising
//! map-like behaviour over a key drawn from each record.  This module
//! gives the mathematical reading of such a sequence as a map, and the
//! facts the stores need: what pushing a fresh record or updating a
//! record in place (keeping its key) does to the map.

use vstd::prelude::*;

verus! {

/// The map read off a record sequence: later records shadow earlier
/// ones with the same key (the stores never let that happen).
pub open spec fn keyed_map<K, V>(s: Seq<V>, key: spec_fn(V) -> K) -> Map<K, V>
    decreases s.len(),
{
    if s.len() == 0 {
        Map::empty()
    } else {
        keyed_map(s.drop_last(), key).insert(key(s.last()), s.last())
    }
}

/// No two records of `s` share a key.
pub open spec fn distinct_keys<K, V>(s: Seq<V>, key: spec_fn(V) -> K) -> bool {
    forall|i: int, j: int| 0 <= i < j < s.len() ==> key(#[trigger] s[i]) != key(#[trigger] s[j])
}

/// Some record of `s` has key `k`.
pub open spec fn has_key<K, V>(s: Seq<V>, key: spec_fn(V) -> K, k: K) -> bool {
    exists|i: int| 0 <= i < s.len() && key(#[trigger] s[i]) == k
}

/// With distinct keys, the map contains exactly the keys of the records,
/// and each record is the value stored under its own key.
pub proof fn lemma_keyed_map_facts<K, V>(s: Seq<V>, key: spec_fn(V) -> K)
    requires
        distinct_keys(s, key),
    ensures
        forall|k: K| #![trigger keyed_map(s, key).contains_key(k)]
            (keyed_map(s, key).contains_key(k) <==> has_key(s, key, k)),
        forall|i: int| 0 <= i < s.len() ==> keyed_map(s, key)[key(#[trigger] s[i])] == s[i],
    decreases s.len(),
{
    if s.len() > 0 {
        let prev = s.drop_last();
        assert(distinct_keys(prev, key)) by {
            assert(forall|i: int| 0 <= i < prev.len() ==> prev[i] == s[i]);
        }
        lemma_keyed_map_facts(prev, key);
        assert forall|k: K| #![trigger keyed_map(s, key).contains_key(k)]
            (keyed_map(s, key).contains_key(k) <==> has_key(s, key, k)) by {
            if keyed_map(s, key).contains_key(k) {
                if k == key(s.last()) {
                    assert(key(s[s.len() - 1]) == k);
                    assert(has_key(s, key, k));
                } else {
                    assert(keyed_map(prev, key).contains_key(k));
                    assert(has_key(prev, key, k));
                    let i = choose|i: int| 0 <= i < prev.len() && key(#[trigger] prev[i]) == k;
                    assert(prev[i] == s[i]);
                    assert(key(s[i]) == k);
                    assert(has_key(s, key, k));
                }
            }
            if has_key(s, key, k) {
                let i = choose|i: int| 0 <= i < s.len() && key(#[trigger] s[i]) == k;
                if i < s.len() - 1 {
                    assert(prev[i] == s[i]);
                    assert(key(prev[i]) == k);
                    assert(has_key(prev, key, k));
                    assert(keyed_map(prev, key).contains_key(k));
                    assert(keyed_map(s, key).contains_key(k));
                } else {
                    assert(k == key(s.last()));
                    assert(keyed_map(s, key).contains_key(k));
                }
            }
        }
        assert forall|i: int| 0 <= i < s.len() implies
            keyed_map(s, key)[key(s[i])] == s[i] by {
            if i < s.len() - 1 {
                assert(key(s[i]) != key(s[s.len() - 1]));
                assert(prev[i] == s[i]);
            }
        }
    }
}

/// Pushing a record puts it into the map under its key.
pub proof fn lemma_keyed_map_push<K, V>(s: Seq<V>, key: spec_fn(V) -> K, v: V)
    ensures
        keyed_map(s.push(v), key) == keyed_map(s, key).insert(key(v), v),
{
    assert(s.push(v).drop_last() =~= s);
    assert(s.push(v).last() == v);
}

/// Pushing a record with a fresh key keeps the keys distinct.
pub proof fn lemma_distinct_push<K, V>(s: Seq<V>, key: spec_fn(V) -> K, v: V)
    requires
        distinct_keys(s, key),
        !has_key(s, key, key(v)),
    ensures
        distinct_keys(s.push(v), key),
{
    let t = s.push(v);
    assert forall|i: int, j: int| 0 <= i < j < t.len() implies
        key(t[i]) != key(t[j]) by {
        if j == s.len() {
            assert(t[i] == s[i]);
            if key(s[i]) == key(v) {
                assert(has_key(s, key, key(v)));
            }
        } else {
            assert(t[i] == s[i] && t[j] == s[j]);
        }
    }
}

/// Updating a record in place without changing its key acts on the map
/// as an insert under that key, and keeps the keys distinct.
pub proof fn lemma_keyed_map_update<K, V>(s: Seq<V>, key: spec_fn(V) -> K, i: int, v: V)
    requires
        distinct_keys(s, key),
        0 <= i < s.len(),
        key(v) == key(s[i]),
    ensures
        keyed_map(s.update(i, v), key) == keyed_map(s, key).insert(key(v), v),
        distinct_keys(s.update(i, v), key),
    decreases s.len(),
{
    let t = s.update(i, v);
    assert forall|p: int, q: int| 0 <= p < q < t.len() implies
        key(t[p]) != key(t[q]) by {
        assert(key(t[p]) == if p == i { key(v) } else { key(s[p]) });
        assert(key(t[q]) == if q == i { key(v) } else { key(s[q]) });
    }
    let prev = s.drop_last();
    assert(distinct_keys(prev, key)) by {
        assert(forall|p: int| 0 <= p < prev.len() ==> prev[p] == s[p]);
    }
    if i == s.len() - 1 {
        assert(t.drop_last() =~= prev);
        assert(t.last() == v);
        assert(keyed_map(t, key) == keyed_map(prev, key).insert(key(v), v));
        assert(keyed_map(prev, key).insert(key(s.last()), s.last()).insert(key(v), v)
            =~= keyed_map(prev, key).insert(key(v), v));
    } else {
        assert(t.drop_last() =~= prev.update(i, v));
        assert(t.last() == s.last());
        lemma_keyed_map_update(prev, key, i, v);
        // the two inserted keys differ, so the inserts commute
        assert(key(v) == key(s[i]) && key(s[i]) != key(s.last()));
        assert(keyed_map(prev, key).insert(key(v), v).insert(key(s.last()), s.last())
            =~= keyed_map(prev, key).insert(key(s.last()), s.last()).insert(key(v), v));
    }
}

} // verus!
