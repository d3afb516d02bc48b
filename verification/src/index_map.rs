//! Insertion-ordered maps of the `indexmap` crate, and the sequences of
//! entries that stand for them in contracts.

use vstd::prelude::*;

use indexmap::IndexMap;

verus! {

#[verifier::external_type_specification]
#[verifier::external_body]
#[verifier::reject_recursive_types(K)]
#[verifier::reject_recursive_types(V)]
#[verifier::reject_recursive_types(S)]
pub struct ExIndexMap<K, V, S>(IndexMap<K, V, S>);

/// Whether no key occurs twice among the entries.
pub open spec fn distinct_keys<K, V>(es: Seq<(K, V)>) -> bool {
    forall|i: int, j: int| 0 <= i < j < es.len() ==> (#[trigger] es[i]).0 != (#[trigger] es[j]).0
}

/// Whether an entry has the key.
pub open spec fn has_key<K, V>(es: Seq<(K, V)>, k: K) -> bool {
    exists|i: int| 0 <= i < es.len() && (#[trigger] es[i]).0 == k
}

/// The index of the entry with the key.
pub open spec fn key_index<K, V>(es: Seq<(K, V)>, k: K) -> int {
    choose|i: int| 0 <= i < es.len() && (#[trigger] es[i]).0 == k
}

/// The value of the entry with the key.
pub open spec fn map_get<K, V>(es: Seq<(K, V)>, k: K) -> Option<V> {
    if has_key(es, k) {
        Some(es[key_index(es, k)].1)
    } else {
        None
    }
}

/// The entries after an insertion: the value of an entry with the key is
/// replaced in place, else the entry is appended.
pub open spec fn map_insert<K, V>(es: Seq<(K, V)>, k: K, v: V) -> Seq<(K, V)> {
    if has_key(es, k) {
        es.update(key_index(es, k), (k, v))
    } else {
        es.push((k, v))
    }
}

/// With distinct keys, the entry that has the key is the one at its index.
pub proof fn lemma_key_index<K, V>(es: Seq<(K, V)>, i: int)
    requires
        distinct_keys(es),
        0 <= i < es.len(),
    ensures
        has_key(es, es[i].0),
        key_index(es, es[i].0) == i,
        map_get(es, es[i].0) == Some(es[i].1),
{
    assert(has_key(es, es[i].0));
}

/// After an insertion, the key reads back the inserted value, every other
/// key reads what it read before, and no key occurs twice.
pub proof fn lemma_map_insert_get<K, V>(es: Seq<(K, V)>, k: K, v: V, other: K)
    requires
        distinct_keys(es),
    ensures
        distinct_keys(map_insert(es, k, v)),
        map_get(map_insert(es, k, v), k) == Some(v),
        other != k ==> map_get(map_insert(es, k, v), other) == map_get(es, other),
{
    let es2 = map_insert(es, k, v);
    if has_key(es, k) {
        let i = key_index(es, k);
        assert(es2[i].0 == k);
        assert(has_key(es2, k));
        assert(key_index(es2, k) == i);
        if has_key(es, other) && other != k {
            let a = key_index(es, other);
            assert(es2[a].0 == other);
            assert(has_key(es2, other));
            assert(key_index(es2, other) == a);
        }
        if other != k && has_key(es2, other) {
            let b = key_index(es2, other);
            assert(es[b].0 == other);
        }
    } else {
        let n = es.len() as int;
        assert(es2[n].0 == k);
        assert(has_key(es2, k));
        assert(key_index(es2, k) == n);
        if has_key(es, other) && other != k {
            let a = key_index(es, other);
            assert(es2[a].0 == other);
            assert(has_key(es2, other));
            assert(key_index(es2, other) == a);
        }
        if other != k && has_key(es2, other) {
            let b = key_index(es2, other);
            assert(b != n);
            assert(es[b].0 == other);
        }
    }
}

} // verus!
