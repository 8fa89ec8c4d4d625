//! Insertion-ordered tables of key/value pairs with unique keys, as used for
//! the path table and the schema store.
use vstd::prelude::*;

verus! {

/// No key occurs twice.
pub open spec fn keys_unique<K, V>(s: Seq<(K, V)>) -> bool {
    forall|i: int, j: int|
        0 <= i < s.len() && 0 <= j < s.len() && #[trigger] s[i].0 == #[trigger] s[j].0 ==> i == j
}

pub open spec fn has_key<K, V>(s: Seq<(K, V)>, k: K) -> bool {
    exists|i: int| 0 <= i < s.len() && s[i].0 == k
}

/// The position of `k` in the table.
pub open spec fn index_of<K, V>(s: Seq<(K, V)>, k: K) -> int {
    choose|i: int| 0 <= i < s.len() && s[i].0 == k
}

/// The value stored under `k`, if any.
pub open spec fn lookup<K, V>(s: Seq<(K, V)>, k: K) -> Option<V> {
    if has_key(s, k) {
        Some(s[index_of(s, k)].1)
    } else {
        None
    }
}

/// Store `v` under `k`: an existing entry keeps its position and takes the new
/// value, a new key is appended.
pub open spec fn upsert<K, V>(s: Seq<(K, V)>, k: K, v: V) -> Seq<(K, V)> {
    if has_key(s, k) {
        s.update(index_of(s, k), (k, v))
    } else {
        s.push((k, v))
    }
}

/// The table read as a map, forgetting the order of its entries.
pub open spec fn as_map<K, V>(s: Seq<(K, V)>) -> Map<K, V> {
    Map::new(|k: K| has_key(s, k), |k: K| s[index_of(s, k)].1)
}

pub proof fn lemma_index_of<K, V>(s: Seq<(K, V)>, i: int)
    requires
        keys_unique(s),
        0 <= i < s.len(),
    ensures
        has_key(s, s[i].0),
        index_of(s, s[i].0) == i,
        lookup(s, s[i].0) == Some(s[i].1),
{
    assert(has_key(s, s[i].0));
    let j = index_of(s, s[i].0);
    assert(s[j].0 == s[i].0);
}

/// Storing a value keeps keys unique, and acts on the map as an insert.
pub proof fn lemma_upsert<K, V>(s: Seq<(K, V)>, k: K, v: V)
    requires
        keys_unique(s),
    ensures
        keys_unique(upsert(s, k, v)),
        as_map(upsert(s, k, v)) == as_map(s).insert(k, v),
        lookup(upsert(s, k, v), k) == Some(v),
        forall|k2: K| k2 != k ==> lookup(upsert(s, k, v), k2) == lookup(s, k2),
{
    let t = upsert(s, k, v);
    if has_key(s, k) {
        let i = index_of(s, k);
        assert forall|a: int, b: int|
            0 <= a < t.len() && 0 <= b < t.len() && #[trigger] t[a].0 == #[trigger] t[b].0 implies a
            == b by {
            assert(s[a].0 == t[a].0 || a == i);
            assert(s[b].0 == t[b].0 || b == i);
            assert(s[i].0 == k);
        }
    } else {
        assert forall|a: int, b: int|
            0 <= a < t.len() && 0 <= b < t.len() && #[trigger] t[a].0 == #[trigger] t[b].0 implies a
            == b by {
            if a < s.len() && b < s.len() {
                assert(s[a].0 == t[a].0 && s[b].0 == t[b].0);
            } else if a < s.len() {
                assert(s[a].0 == t[a].0);
            } else if b < s.len() {
                assert(s[b].0 == t[b].0);
            }
        }
    }
    assert(t[if has_key(s, k) { index_of(s, k) } else { s.len() as int }].0 == k);
    lemma_index_of(t, if has_key(s, k) { index_of(s, k) } else { s.len() as int });
    assert forall|k2: K| k2 != k implies lookup(t, k2) == lookup(s, k2) by {
        if has_key(s, k2) {
            let j = index_of(s, k2);
            lemma_index_of(s, j);
            assert(t[j] == s[j]);
            lemma_index_of(t, j);
        } else if has_key(t, k2) {
            let j = index_of(t, k2);
            assert(t[j].0 == k2);
            assert(s[j].0 == k2);
        }
    }
    assert forall|k2: K| #[trigger] has_key(t, k2) == (has_key(s, k2) || k2 == k) by {
        if k2 != k {
            assert(lookup(t, k2) == lookup(s, k2));
        }
    }
    assert forall|k2: K| has_key(t, k2) implies #[trigger] t[index_of(t, k2)].1 == as_map(s).insert(
        k,
        v,
    )[k2] by {
        if k2 != k {
            assert(lookup(t, k2) == lookup(s, k2));
        }
    }
    assert(as_map(t) =~= as_map(s).insert(k, v));
}

} // verus!
