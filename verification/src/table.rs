//! Lookup in a sequence of keys, as the tables of the hub use it: the first
//! entry under a key is the entry of that key.

use vstd::prelude::*;

verus! {

/// The first position at or after `from` that holds `k`.
pub open spec fn first_index<K>(keys: Seq<K>, k: K, from: int) -> Option<int>
    decreases keys.len() - from,
{
    if from < 0 || from >= keys.len() {
        None
    } else if keys[from] == k {
        Some(from)
    } else {
        first_index(keys, k, from + 1)
    }
}

/// The first position that holds `k`.
pub open spec fn index_of<K>(keys: Seq<K>, k: K) -> Option<int> {
    first_index(keys, k, 0)
}

/// Whether `k` occurs among the keys.
pub open spec fn has_key<K>(keys: Seq<K>, k: K) -> bool {
    index_of(keys, k) is Some
}

/// No key occurs twice.
pub open spec fn distinct<K>(keys: Seq<K>) -> bool {
    forall|i: int, j: int| 0 <= i < j < keys.len() ==> keys[i] != keys[j]
}

/// What `first_index` finds is in range, holds the key, and nothing before
/// it from `from` on does; what it misses is nowhere from `from` on.
pub proof fn lemma_first_index<K>(keys: Seq<K>, k: K, from: int)
    requires
        0 <= from,
    ensures
        match first_index(keys, k, from) {
            Some(i) => from <= i < keys.len() && keys[i] == k && forall|j: int|
                from <= j < i ==> keys[j] != k,
            None => forall|j: int| from <= j < keys.len() ==> keys[j] != k,
        },
    decreases keys.len() - from,
{
    if from < keys.len() && keys[from] != k {
        lemma_first_index(keys, k, from + 1);
    }
}

/// The position `i` is what `index_of` finds where it is the first to hold
/// `k`.
pub proof fn lemma_index_of_is<K>(keys: Seq<K>, k: K, i: int)
    requires
        0 <= i < keys.len(),
        keys[i] == k,
        forall|j: int| 0 <= j < i ==> keys[j] != k,
    ensures
        index_of(keys, k) == Some(i),
{
    lemma_first_index(keys, k, 0);
}

/// A key that is nowhere is not found.
pub proof fn lemma_index_of_none<K>(keys: Seq<K>, k: K)
    requires
        forall|j: int| 0 <= j < keys.len() ==> keys[j] != k,
    ensures
        index_of(keys, k) is None,
{
    lemma_first_index(keys, k, 0);
}

/// A key is found exactly where some position holds it.
pub proof fn lemma_has_key<K>(keys: Seq<K>, k: K)
    ensures
        has_key(keys, k) <==> exists|i: int| 0 <= i < keys.len() && keys[i] == k,
{
    lemma_first_index(keys, k, 0);
}

} // verus!
