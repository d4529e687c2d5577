//! Entries in the order of their insertion: the model of the ordered maps that this library
//! reads and fills.

use vstd::prelude::*;

verus! {

/// No two entries have the same key.
pub open spec fn distinct_keys<K, V>(entries: Seq<(K, V)>) -> bool {
    forall|i: int, j: int|
        0 <= i < j < entries.len() ==> (#[trigger] entries[i]).0 != (#[trigger] entries[j]).0
}

/// Whether some entry has the key `key`.
pub open spec fn has_key<K, V>(entries: Seq<(K, V)>, key: K) -> bool {
    exists|i: int| 0 <= i < entries.len() && (#[trigger] entries[i]).0 == key
}

/// The value of the first entry with the key `key`.
pub open spec fn lookup<K, V>(entries: Seq<(K, V)>, key: K) -> Option<V>
    decreases entries.len(),
{
    if entries.len() == 0 {
        None
    } else if entries[0].0 == key {
        Some(entries[0].1)
    } else {
        lookup(entries.drop_first(), key)
    }
}

/// The entries after `key` was given the value `value`: the entry with that key keeps its
/// place and its key, a new key goes to the end.
pub open spec fn put<K, V>(entries: Seq<(K, V)>, key: K, value: V) -> Seq<(K, V)>
    decreases entries.len(),
{
    if entries.len() == 0 {
        seq![(key, value)]
    } else if entries[0].0 == key {
        seq![(entries[0].0, value)] + entries.drop_first()
    } else {
        seq![entries[0]] + put(entries.drop_first(), key, value)
    }
}

/// Looking up the key that was just put finds the new value.
pub(crate) proof fn lemma_lookup_put_same<K, V>(entries: Seq<(K, V)>, key: K, value: V)
    ensures
        lookup(put(entries, key, value), key) == Some(value),
    decreases entries.len(),
{
    if entries.len() == 0 {
    } else if entries[0].0 == key {
    } else {
        let rest = put(entries.drop_first(), key, value);
        lemma_lookup_put_same(entries.drop_first(), key, value);
        assert(put(entries, key, value).drop_first() =~= rest);
    }
}

/// Putting one key leaves what is found under another.
pub(crate) proof fn lemma_lookup_put_other<K, V>(entries: Seq<(K, V)>, key: K, value: V, other: K)
    requires
        other != key,
    ensures
        lookup(put(entries, key, value), other) == lookup(entries, other),
    decreases entries.len(),
{
    if entries.len() == 0 {
        assert(put(entries, key, value).drop_first() =~= entries);
    } else if entries[0].0 == key {
        assert(put(entries, key, value).drop_first() =~= entries.drop_first());
    } else {
        let rest = put(entries.drop_first(), key, value);
        lemma_lookup_put_other(entries.drop_first(), key, value, other);
        assert(put(entries, key, value).drop_first() =~= rest);
    }
}

/// A key that no entry has is found nowhere, and the other way round.
pub(crate) proof fn lemma_lookup_none<K, V>(entries: Seq<(K, V)>, key: K)
    ensures
        lookup(entries, key) is None <==> !has_key(entries, key),
    decreases entries.len(),
{
    if entries.len() == 0 {
    } else if entries[0].0 == key {
        assert(has_key(entries, key));
    } else {
        let rest = entries.drop_first();
        lemma_lookup_none(rest, key);
        if has_key(entries, key) {
            let i = choose|i: int| 0 <= i < entries.len() && (#[trigger] entries[i]).0 == key;
            assert(rest[i - 1] == entries[i]);
            assert(has_key(rest, key));
        }
        if has_key(rest, key) {
            let i = choose|i: int| 0 <= i < rest.len() && (#[trigger] rest[i]).0 == key;
            assert(entries[i + 1] == rest[i]);
            assert(has_key(entries, key));
        }
    }
}

/// With distinct keys, the entry at an index is the one found under its key.
pub(crate) proof fn lemma_lookup_at<K, V>(entries: Seq<(K, V)>, i: int)
    requires
        distinct_keys(entries),
        0 <= i < entries.len(),
    ensures
        lookup(entries, entries[i].0) == Some(entries[i].1),
    decreases entries.len(),
{
    if i == 0 {
    } else {
        let rest = entries.drop_first();
        assert forall|a: int, b: int| 0 <= a < b < rest.len() implies (#[trigger] rest[a]).0 != (
        #[trigger] rest[b]).0 by {
            assert(rest[a] == entries[a + 1]);
            assert(rest[b] == entries[b + 1]);
        }
        assert(entries[0].0 != entries[i].0);
        assert(rest[i - 1] == entries[i]);
        lemma_lookup_at(rest, i - 1);
    }
}

/// A new key goes to the end.
pub(crate) proof fn lemma_put_new<K, V>(entries: Seq<(K, V)>, key: K, value: V)
    requires
        !has_key(entries, key),
    ensures
        put(entries, key, value) == entries.push((key, value)),
    decreases entries.len(),
{
    if entries.len() == 0 {
        assert(put(entries, key, value) =~= entries.push((key, value)));
    } else {
        let rest = entries.drop_first();
        assert(entries[0].0 != key);
        assert forall|i: int| 0 <= i < rest.len() implies (#[trigger] rest[i]).0 != key by {
            assert(rest[i] == entries[i + 1]);
        }
        lemma_put_new(rest, key, value);
        assert(seq![entries[0]] + rest.push((key, value)) =~= entries.push((key, value)));
    }
}

/// Giving a key the value that it has changes nothing.
pub(crate) proof fn lemma_put_unchanged<K, V>(entries: Seq<(K, V)>, key: K, value: V)
    requires
        lookup(entries, key) == Some(value),
    ensures
        put(entries, key, value) == entries,
    decreases entries.len(),
{
    if entries.len() == 0 {
    } else if entries[0].0 == key {
        assert(seq![(entries[0].0, value)] + entries.drop_first() =~= entries);
    } else {
        lemma_put_unchanged(entries.drop_first(), key, value);
        assert(seq![entries[0]] + entries.drop_first() =~= entries);
    }
}

} // verus!
