//! Sequences whose elements are told apart by a key, read as maps from key to element.
//!
//! The relay keeps its rooms, and each room its machines, in a vector with at most
//! one element per key; these lemmas say what the vector operations do to the map.

use vstd::prelude::*;

verus! {

/// Some element of `s` has key `k`.
pub open spec fn has_key<V, K>(s: Seq<V>, key: spec_fn(V) -> K, k: K) -> bool {
    exists|i: int| 0 <= i < s.len() && #[trigger] key(s[i]) == k
}

/// The position of an element of `s` with key `k`.
pub open spec fn index_of_key<V, K>(s: Seq<V>, key: spec_fn(V) -> K, k: K) -> int {
    choose|i: int| 0 <= i < s.len() && #[trigger] key(s[i]) == k
}

/// `s` read as a map from each key to the element that has it.
pub open spec fn keyed_map<V, K>(s: Seq<V>, key: spec_fn(V) -> K) -> Map<K, V> {
    Map::new(|k: K| has_key(s, key, k), |k: K| s[index_of_key(s, key, k)])
}

/// No two elements of `s` share a key.
pub open spec fn unique_keys<V, K>(s: Seq<V>, key: spec_fn(V) -> K) -> bool {
    forall|i: int, j: int|
        0 <= i < s.len() && 0 <= j < s.len() && #[trigger] key(s[i]) == #[trigger] key(s[j])
            ==> i == j
}

pub proof fn lemma_keyed_at<V, K>(s: Seq<V>, key: spec_fn(V) -> K, i: int)
    requires
        unique_keys(s, key),
        0 <= i < s.len(),
    ensures
        has_key(s, key, key(s[i])),
        index_of_key(s, key, key(s[i])) == i,
        keyed_map(s, key).contains_key(key(s[i])),
        keyed_map(s, key)[key(s[i])] == s[i],
{
    assert(has_key(s, key, key(s[i])));
}

pub proof fn lemma_keyed_empty<V, K>(s: Seq<V>, key: spec_fn(V) -> K)
    requires
        s.len() == 0,
    ensures
        keyed_map(s, key) == Map::<K, V>::empty(),
        unique_keys(s, key),
{
    assert(keyed_map(s, key) =~= Map::<K, V>::empty());
}

pub proof fn lemma_keyed_update<V, K>(s: Seq<V>, key: spec_fn(V) -> K, j: int, v: V)
    requires
        unique_keys(s, key),
        0 <= j < s.len(),
        key(v) == key(s[j]),
    ensures
        unique_keys(s.update(j, v), key),
        keyed_map(s.update(j, v), key) == keyed_map(s, key).insert(key(v), v),
{
    let t = s.update(j, v);
    assert(unique_keys(t, key)) by {
        assert forall|a: int, b: int|
            0 <= a < t.len() && 0 <= b < t.len() && #[trigger] key(t[a]) == #[trigger] key(t[b])
            implies a == b by {
            assert(key(t[a]) == key(s[a]));
            assert(key(t[b]) == key(s[b]));
        }
    }
    let m = keyed_map(s, key).insert(key(v), v);
    assert forall|k: K| #[trigger] keyed_map(t, key).contains_key(k) <==> m.contains_key(k) by {
        if has_key(s, key, k) {
            let i = index_of_key(s, key, k);
            assert(key(t[i]) == key(s[i]));
        }
        if has_key(t, key, k) {
            let i = index_of_key(t, key, k);
            assert(key(t[i]) == key(s[i]));
        }
    }
    assert forall|k: K| #[trigger] keyed_map(t, key).contains_key(k) implies keyed_map(t, key)[k]
        == m[k] by {
        let i = index_of_key(t, key, k);
        assert(key(t[i]) == key(s[i]));
        lemma_keyed_at(t, key, i);
        if i != j {
            lemma_keyed_at(s, key, i);
        }
    }
    assert(keyed_map(t, key) =~= m);
}

pub proof fn lemma_keyed_push<V, K>(s: Seq<V>, key: spec_fn(V) -> K, v: V)
    requires
        unique_keys(s, key),
        !has_key(s, key, key(v)),
    ensures
        unique_keys(s.push(v), key),
        keyed_map(s.push(v), key) == keyed_map(s, key).insert(key(v), v),
{
    let t = s.push(v);
    assert(unique_keys(t, key)) by {
        assert forall|a: int, b: int|
            0 <= a < t.len() && 0 <= b < t.len() && #[trigger] key(t[a]) == #[trigger] key(t[b])
            implies a == b by {
            if a < s.len() && b == s.len() {
                assert(key(s[a]) == key(v));
            }
            if b < s.len() && a == s.len() {
                assert(key(s[b]) == key(v));
            }
            if a < s.len() && b < s.len() {
                assert(key(t[a]) == key(s[a]));
                assert(key(t[b]) == key(s[b]));
            }
        }
    }
    let m = keyed_map(s, key).insert(key(v), v);
    assert forall|k: K| #[trigger] keyed_map(t, key).contains_key(k) <==> m.contains_key(k) by {
        if has_key(s, key, k) {
            let i = index_of_key(s, key, k);
            assert(t[i] == s[i]);
        }
        if k == key(v) {
            assert(key(t[s.len() as int]) == k);
        }
        if has_key(t, key, k) && k != key(v) {
            let i = index_of_key(t, key, k);
            assert(t[i] == s[i]);
        }
    }
    assert forall|k: K| #[trigger] keyed_map(t, key).contains_key(k) implies keyed_map(t, key)[k]
        == m[k] by {
        let i = index_of_key(t, key, k);
        lemma_keyed_at(t, key, i);
        if i < s.len() {
            assert(t[i] == s[i]);
            lemma_keyed_at(s, key, i);
        }
    }
    assert(keyed_map(t, key) =~= m);
}

pub proof fn lemma_keyed_remove<V, K>(s: Seq<V>, key: spec_fn(V) -> K, j: int)
    requires
        unique_keys(s, key),
        0 <= j < s.len(),
    ensures
        unique_keys(s.remove(j), key),
        keyed_map(s.remove(j), key) == keyed_map(s, key).remove(key(s[j])),
{
    let t = s.remove(j);
    assert(forall|a: int| 0 <= a < t.len() ==> #[trigger] t[a] == s[if a < j { a } else { a + 1 }]);
    assert(unique_keys(t, key)) by {
        assert forall|a: int, b: int|
            0 <= a < t.len() && 0 <= b < t.len() && #[trigger] key(t[a]) == #[trigger] key(t[b])
            implies a == b by {
            let a2 = if a < j { a } else { a + 1 };
            let b2 = if b < j { b } else { b + 1 };
            assert(key(s[a2]) == key(s[b2]));
        }
    }
    let m = keyed_map(s, key).remove(key(s[j]));
    assert forall|k: K| #[trigger] keyed_map(t, key).contains_key(k) <==> m.contains_key(k) by {
        if has_key(t, key, k) {
            let a = index_of_key(t, key, k);
            let a2 = if a < j { a } else { a + 1 };
            assert(key(s[a2]) == k);
            assert(a2 != j);
        }
        if has_key(s, key, k) && k != key(s[j]) {
            let i = index_of_key(s, key, k);
            assert(i != j);
            let i2 = if i < j { i } else { i - 1 };
            assert(t[i2] == s[i]);
        }
    }
    assert forall|k: K| #[trigger] keyed_map(t, key).contains_key(k) implies keyed_map(t, key)[k]
        == m[k] by {
        let a = index_of_key(t, key, k);
        lemma_keyed_at(t, key, a);
        let a2 = if a < j { a } else { a + 1 };
        lemma_keyed_at(s, key, a2);
    }
    assert(keyed_map(t, key) =~= m);
}

pub proof fn lemma_keyed_len<V, K>(s: Seq<V>, key: spec_fn(V) -> K)
    requires
        unique_keys(s, key),
    ensures
        keyed_map(s, key).dom().finite(),
        keyed_map(s, key).dom().len() == s.len(),
{
    let ks = s.map_values(key);
    assert(ks.no_duplicates()) by {
        assert forall|a: int, b: int| 0 <= a < ks.len() && 0 <= b < ks.len() && a != b implies ks[a]
            != ks[b] by {
            if ks[a] == ks[b] {
                assert(key(s[a]) == key(s[b]));
            }
        }
    }
    assert(keyed_map(s, key).dom() =~= ks.to_set()) by {
        assert forall|k: K| keyed_map(s, key).dom().contains(k) <==> ks.to_set().contains(k) by {
            if has_key(s, key, k) {
                let i = index_of_key(s, key, k);
                assert(ks[i] == k);
            }
            if ks.contains(k) {
                let i = choose|i: int| 0 <= i < ks.len() && ks[i] == k;
                assert(key(s[i]) == k);
            }
        }
    }
    ks.unique_seq_to_set();
}

} // verus!
