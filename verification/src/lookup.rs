//! Finding the first record with a given key in a sequence of keys.

use vstd::prelude::*;

verus! {

/// The first index at or after `start` at which `keys` holds `key`, or the
/// length of `keys` where there is none.
pub open spec fn first_index<K>(keys: Seq<K>, key: K, start: int) -> int
    decreases keys.len() - start,
{
    if start < 0 || start >= keys.len() {
        keys.len() as int
    } else if keys[start] == key {
        start
    } else {
        first_index(keys, key, start + 1)
    }
}

/// What `first_index` finds lies at or after `start`, holds the key, and
/// nothing between `start` and it does.
pub proof fn lemma_first_index<K>(keys: Seq<K>, key: K, start: int)
    requires
        0 <= start <= keys.len(),
    ensures
        start <= first_index(keys, key, start) <= keys.len(),
        first_index(keys, key, start) < keys.len() ==> keys[first_index(keys, key, start)] == key,
        forall|j: int| start <= j < first_index(keys, key, start) ==> keys[j] != key,
    decreases keys.len() - start,
{
    if start < keys.len() && keys[start] != key {
        lemma_first_index(keys, key, start + 1);
    }
}

/// An index that holds the key, with no earlier one that does, is the one
/// that `first_index` finds.
pub proof fn lemma_first_index_is<K>(keys: Seq<K>, key: K, at: int)
    requires
        0 <= at <= keys.len(),
        at < keys.len() ==> keys[at] == key,
        forall|j: int| 0 <= j < at ==> keys[j] != key,
    ensures
        first_index(keys, key, 0) == at,
{
    lemma_first_index(keys, key, 0);
}

} // verus!
