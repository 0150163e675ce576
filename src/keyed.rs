//! Sequences of records with distinct keys, seen as maps from key to record.
use vstd::prelude::*;

verus! {

/// The map from each key of `s` to the last record of `s` with that key.
pub open spec fn keyed<T, K>(s: Seq<T>, key: spec_fn(T) -> K) -> Map<K, T>
    decreases s.len(),
{
    if s.len() == 0 {
        Map::empty()
    } else {
        keyed(s.drop_last(), key).insert(key(s.last()), s.last())
    }
}

/// Whether no two records of `s` share a key.
pub open spec fn unique_keys<T, K>(s: Seq<T>, key: spec_fn(T) -> K) -> bool {
    forall|i: int, j: int| 0 <= i < s.len() && 0 <= j < s.len() && i != j ==> key(s[i]) != key(s[j])
}

/// A key is in the map exactly when a record carries it, and then the map
/// gives that record.
pub proof fn lemma_keyed_index<T, K>(s: Seq<T>, key: spec_fn(T) -> K, i: int)
    requires
        unique_keys(s, key),
        0 <= i < s.len(),
    ensures
        keyed(s, key).contains_key(key(s[i])),
        keyed(s, key)[key(s[i])] == s[i],
    decreases s.len(),
{
    if i < s.len() - 1 {
        assert(s.drop_last()[i] == s[i]);
        lemma_keyed_index(s.drop_last(), key, i);
    }
}

/// A key that no record carries is not in the map.
pub proof fn lemma_keyed_absent<T, K>(s: Seq<T>, key: spec_fn(T) -> K, k: K)
    requires
        forall|i: int| 0 <= i < s.len() ==> key(s[i]) != k,
    ensures
        !keyed(s, key).contains_key(k),
    decreases s.len(),
{
    if s.len() > 0 {
        assert forall|i: int| 0 <= i < s.drop_last().len() implies key(s.drop_last()[i]) != k by {
            assert(s.drop_last()[i] == s[i]);
        }
        lemma_keyed_absent(s.drop_last(), key, k);
    }
}

/// Appending a record adds its key.
pub proof fn lemma_keyed_push<T, K>(s: Seq<T>, key: spec_fn(T) -> K, x: T)
    ensures
        keyed(s.push(x), key) == keyed(s, key).insert(key(x), x),
{
    assert(s.push(x).drop_last() =~= s);
}

/// Replacing a record by one with the same key replaces the map's entry.
pub proof fn lemma_keyed_update<T, K>(s: Seq<T>, key: spec_fn(T) -> K, i: int, x: T)
    requires
        unique_keys(s, key),
        0 <= i < s.len(),
        key(x) == key(s[i]),
    ensures
        keyed(s.update(i, x), key) == keyed(s, key).insert(key(x), x),
    decreases s.len(),
{
    let t = s.update(i, x);
    if i == s.len() - 1 {
        assert(t.drop_last() =~= s.drop_last());
        assert(keyed(t, key) =~= keyed(s, key).insert(key(x), x));
    } else {
        assert(t.drop_last() =~= s.drop_last().update(i, x));
        assert(s.drop_last()[i] == s[i]);
        lemma_keyed_update(s.drop_last(), key, i, x);
        assert(key(s.last()) != key(s[i]));
        assert(keyed(t, key) =~= keyed(s, key).insert(key(x), x));
    }
}

/// Removing a record removes its key.
pub proof fn lemma_keyed_remove<T, K>(s: Seq<T>, key: spec_fn(T) -> K, i: int)
    requires
        unique_keys(s, key),
        0 <= i < s.len(),
    ensures
        keyed(s.remove(i), key) == keyed(s, key).remove(key(s[i])),
    decreases s.len(),
{
    let t = s.remove(i);
    if i == s.len() - 1 {
        assert(t =~= s.drop_last());
        assert forall|j: int| 0 <= j < s.drop_last().len() implies key(s.drop_last()[j]) != key(s[i]) by {
            assert(s.drop_last()[j] == s[j]);
        }
        lemma_keyed_absent(s.drop_last(), key, key(s[i]));
        assert(keyed(t, key) =~= keyed(s, key).remove(key(s[i])));
    } else {
        assert(t.drop_last() =~= s.drop_last().remove(i));
        assert(t.last() == s.last());
        assert(s.drop_last()[i] == s[i]);
        lemma_keyed_remove(s.drop_last(), key, i);
        assert(key(s.last()) != key(s[i]));
        assert(keyed(t, key) =~= keyed(s, key).remove(key(s[i])));
    }
}

} // verus!
