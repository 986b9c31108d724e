//! Keyed entry lists.
//!
//! The store keeps each of its key spaces as a vector of `(key, value)`
//! pairs with pairwise distinct keys.  In specifications such a vector is
//! read as the finite map [`map_of`]; [`kv_get`] and [`kv_put`] are lookup
//! and overwriting insertion against that reading.

use vstd::prelude::*;

verus! {

/// Each key appears at most once among the entries.
pub open spec fn keys_unique<V>(entries: Seq<(u64, V)>) -> bool {
    forall|i: int, j: int|
        0 <= i < j < entries.len() ==> (#[trigger] entries[i]).0 != (#[trigger] entries[j]).0
}

/// Some entry carries the key.
pub open spec fn has_key<V>(entries: Seq<(u64, V)>, key: u64) -> bool {
    exists|i: int| 0 <= i < entries.len() && (#[trigger] entries[i]).0 == key
}

/// The position of an entry that carries the key; meaningful only when
/// [`has_key`] holds (and then unique, when the keys are distinct).
pub open spec fn index_of<V>(entries: Seq<(u64, V)>, key: u64) -> int {
    choose|i: int| 0 <= i < entries.len() && (#[trigger] entries[i]).0 == key
}

/// The entries read as a finite map from keys to values.
pub open spec fn map_of<V>(entries: Seq<(u64, V)>) -> Map<u64, V> {
    Map::new(|key: u64| has_key(entries, key), |key: u64| entries[index_of(entries, key)].1)
}

/// When some entry carries the key, [`index_of`] is such an entry's position.
proof fn lemma_index_of<V>(entries: Seq<(u64, V)>, key: u64)
    requires
        has_key(entries, key),
    ensures
        0 <= index_of(entries, key) < entries.len(),
        entries[index_of(entries, key)].0 == key,
{
}

/// Under distinct keys, the entry at position `i` is the one [`map_of`]
/// associates with its key.
proof fn lemma_map_of_at<V>(entries: Seq<(u64, V)>, i: int)
    requires
        keys_unique(entries),
        0 <= i < entries.len(),
    ensures
        map_of(entries).dom().contains(entries[i].0),
        map_of(entries)[entries[i].0] == entries[i].1,
{
    assert(has_key(entries, entries[i].0));
    lemma_index_of(entries, entries[i].0);
    let j = index_of(entries, entries[i].0);
    if i < j {
        assert((entries[i]).0 != (entries[j]).0);
    } else if j < i {
        assert((entries[j]).0 != (entries[i]).0);
    }
}

/// Overwriting the entry that carries `key` updates the map at `key` alone.
proof fn lemma_map_of_update<V>(entries: Seq<(u64, V)>, i: int, key: u64, value: V)
    requires
        keys_unique(entries),
        0 <= i < entries.len(),
        entries[i].0 == key,
    ensures
        keys_unique(entries.update(i, (key, value))),
        map_of(entries.update(i, (key, value))) == map_of(entries).insert(key, value),
{
    let updated = entries.update(i, (key, value));
    assert forall|a: int, b: int| 0 <= a < b < updated.len() implies (#[trigger] updated[a]).0
        != (#[trigger] updated[b]).0 by {
        assert((entries[a]).0 != (entries[b]).0);
    }
    assert forall|k: u64| #[trigger]
        map_of(updated).dom().contains(k) == map_of(entries).insert(key, value).dom().contains(
        k,
    ) by {
        assert(has_key(entries, key));
        if has_key(updated, k) {
            let a = choose|a: int| 0 <= a < updated.len() && (#[trigger] updated[a]).0 == k;
            assert((entries[a]).0 == k || k == key);
            assert(has_key(entries, k) || k == key);
        }
        if has_key(entries, k) {
            let a = choose|a: int| 0 <= a < entries.len() && (#[trigger] entries[a]).0 == k;
            assert((updated[a]).0 == k || a == i);
            if a == i {
                assert((updated[i]).0 == key);
                assert(k == key);
            }
            assert(has_key(updated, k));
        }
    }
    assert forall|k: u64| map_of(updated).dom().contains(k) implies #[trigger] map_of(updated)[k]
        == map_of(entries).insert(key, value)[k] by {
        lemma_index_of(updated, k);
        let a = index_of(updated, k);
        lemma_map_of_at(updated, a);
        if a == i {
            assert(k == key);
            assert(map_of(updated)[k] == value);
        } else {
            assert((updated[a]) == (entries[a]));
            lemma_map_of_at(entries, a);
            assert(k != key) by {
                if a < i {
                    assert((entries[a]).0 != (entries[i]).0);
                } else {
                    assert((entries[i]).0 != (entries[a]).0);
                }
            }
        }
    }
    assert(map_of(updated) =~= map_of(entries).insert(key, value));
}

/// Appending an entry whose key is fresh adds exactly that association.
proof fn lemma_map_of_push<V>(entries: Seq<(u64, V)>, key: u64, value: V)
    requires
        keys_unique(entries),
        !has_key(entries, key),
    ensures
        keys_unique(entries.push((key, value))),
        map_of(entries.push((key, value))) == map_of(entries).insert(key, value),
{
    let pushed = entries.push((key, value));
    assert forall|a: int, b: int| 0 <= a < b < pushed.len() implies (#[trigger] pushed[a]).0
        != (#[trigger] pushed[b]).0 by {
        if b < entries.len() {
            assert((entries[a]).0 != (entries[b]).0);
        } else {
            assert((pushed[b]).0 == key);
            assert((entries[a]).0 != key) by {
                if (entries[a]).0 == key {
                    assert(has_key(entries, key));
                }
            }
        }
    }
    assert forall|k: u64| #[trigger]
        map_of(pushed).dom().contains(k) == map_of(entries).insert(key, value).dom().contains(
        k,
    ) by {
        assert((pushed[entries.len() as int]).0 == key);
        assert(has_key(pushed, key));
        if has_key(pushed, k) {
            let a = choose|a: int| 0 <= a < pushed.len() && (#[trigger] pushed[a]).0 == k;
            if a < entries.len() {
                assert((entries[a]).0 == k);
                assert(has_key(entries, k));
            } else {
                assert(k == key);
            }
        }
        if has_key(entries, k) {
            let a = choose|a: int| 0 <= a < entries.len() && (#[trigger] entries[a]).0 == k;
            assert((pushed[a]).0 == k);
            assert(has_key(pushed, k));
        }
    }
    assert forall|k: u64| map_of(pushed).dom().contains(k) implies #[trigger] map_of(pushed)[k]
        == map_of(entries).insert(key, value)[k] by {
        lemma_index_of(pushed, k);
        let a = index_of(pushed, k);
        lemma_map_of_at(pushed, a);
        if a == entries.len() {
            assert(k == key);
        } else {
            assert((pushed[a]) == (entries[a]));
            lemma_map_of_at(entries, a);
            assert(k != key) by {
                if k == key {
                    assert(has_key(entries, key));
                }
            }
        }
    }
    assert(map_of(pushed) =~= map_of(entries).insert(key, value));
}

/// Looks the key up among the entries.
pub fn kv_get<V: Copy>(entries: &Vec<(u64, V)>, key: u64) -> (result: Option<V>)
    requires
        keys_unique(entries@),
    ensures
        map_of(entries@).dom().contains(key) ==> result == Some(map_of(entries@)[key]),
        !map_of(entries@).dom().contains(key) ==> result is None,
{
    let n: usize = entries.len();
    let mut i: usize = 0;
    while i < n
        invariant
            n == entries@.len(),
            i <= n,
            keys_unique(entries@),
            forall|j: int| 0 <= j < i ==> (#[trigger] entries@[j]).0 != key,
        decreases n - i,
    {
        if entries[i].0 == key {
            proof {
                lemma_map_of_at(entries@, i as int);
            }
            return Some(entries[i].1);
        }
        i += 1;
    }
    proof {
        assert(!has_key(entries@, key));
    }
    None
}

/// Stores the value under the key, overwriting any earlier value.
pub fn kv_put<V: Copy>(entries: &mut Vec<(u64, V)>, key: u64, value: V)
    requires
        keys_unique(old(entries)@),
    ensures
        keys_unique(final(entries)@),
        map_of(final(entries)@) == map_of(old(entries)@).insert(key, value),
{
    let n: usize = entries.len();
    let mut i: usize = 0;
    while i < n
        invariant
            n == entries@.len(),
            i <= n,
            entries@ == old(entries)@,
            keys_unique(entries@),
            forall|j: int| 0 <= j < i ==> (#[trigger] entries@[j]).0 != key,
        decreases n - i,
    {
        if entries[i].0 == key {
            entries[i] = (key, value);
            proof {
                lemma_map_of_update(old(entries)@, i as int, key, value);
            }
            return;
        }
        i += 1;
    }
    proof {
        assert(!has_key(entries@, key));
    }
    entries.push((key, value));
    proof {
        lemma_map_of_push(old(entries)@, key, value);
    }
}

} // verus!
