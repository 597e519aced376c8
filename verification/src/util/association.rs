//! A list of pairs with distinct keys, read as a map.

use vstd::prelude::*;

verus! {

/// Whether no key occurs twice.
pub open spec fn distinct_keys<K, V>(entries: Seq<(K, V)>) -> bool {
    forall|i: int, j: int|
        0 <= i < j < entries.len() ==> (#[trigger] entries[i]).0 != (#[trigger] entries[j]).0
}

/// Whether some entry has the key.
pub open spec fn has_key<K, V>(entries: Seq<(K, V)>, key: K) -> bool {
    exists|i: int| 0 <= i < entries.len() && (#[trigger] entries[i]).0 == key
}

/// The place of an entry with the key, where there is one.
pub open spec fn key_index<K, V>(entries: Seq<(K, V)>, key: K) -> int {
    choose|i: int| 0 <= i < entries.len() && (#[trigger] entries[i]).0 == key
}

/// The map from each key of the list to the value beside it.
pub open spec fn as_map<K, V>(entries: Seq<(K, V)>) -> Map<K, V> {
    Map::new(|key: K| has_key(entries, key), |key: K| entries[key_index(entries, key)].1)
}

/// The entry at a place is what the map holds for its key.
pub proof fn lemma_entry<K, V>(entries: Seq<(K, V)>, index: int)
    requires
        distinct_keys(entries),
        0 <= index < entries.len(),
    ensures
        as_map(entries).dom().contains(entries[index].0),
        as_map(entries)[entries[index].0] == entries[index].1,
        key_index(entries, entries[index].0) == index,
{
    let key = entries[index].0;
    assert(has_key(entries, key));
    let found = key_index(entries, key);
    if found < index {
        assert(entries[found].0 != entries[index].0);
    } else if index < found {
        assert(entries[index].0 != entries[found].0);
    }
}

/// A key of the map has a place in the list.
pub proof fn lemma_key<K, V>(entries: Seq<(K, V)>, key: K)
    requires
        as_map(entries).dom().contains(key),
    ensures
        0 <= key_index(entries, key) < entries.len(),
        entries[key_index(entries, key)].0 == key,
        as_map(entries)[key] == entries[key_index(entries, key)].1,
{
}

/// Appending a new key inserts it into the map.
pub proof fn lemma_push<K, V>(entries: Seq<(K, V)>, key: K, value: V)
    requires
        distinct_keys(entries),
        !as_map(entries).dom().contains(key),
    ensures
        distinct_keys(entries.push((key, value))),
        as_map(entries.push((key, value))) == as_map(entries).insert(key, value),
{
    let longer = entries.push((key, value));
    assert forall|i: int, j: int| 0 <= i < j < longer.len() implies (#[trigger] longer[i]).0 != (
    #[trigger] longer[j]).0 by {
        if j == entries.len() {
            if longer[i].0 == key {
                assert(entries[i].0 == key);
                assert(has_key(entries, key));
            }
        } else {
            assert(entries[i].0 != entries[j].0);
        }
    }
    assert forall|k: K| #[trigger] as_map(longer).dom().contains(k) <==> as_map(entries).insert(
        key,
        value,
    ).dom().contains(k) by {
        if has_key(longer, k) {
            let i = key_index(longer, k);
            if i < entries.len() {
                assert(entries[i].0 == k);
            }
        }
        if has_key(entries, k) {
            let i = key_index(entries, k);
            assert(longer[i].0 == k);
        }
        if k == key {
            assert(longer[entries.len() as int].0 == k);
        }
    }
    assert forall|k: K| #[trigger] as_map(longer).dom().contains(k) implies as_map(longer)[k]
        == as_map(entries).insert(key, value)[k] by {
        let i = key_index(longer, k);
        lemma_entry(longer, i);
        if i < entries.len() {
            assert(entries[i].0 == k);
            lemma_entry(entries, i);
        }
    }
    assert(as_map(longer) =~= as_map(entries).insert(key, value));
}

/// Replacing the value at a place replaces it in the map.
pub proof fn lemma_update<K, V>(entries: Seq<(K, V)>, index: int, value: V)
    requires
        distinct_keys(entries),
        0 <= index < entries.len(),
    ensures
        distinct_keys(entries.update(index, (entries[index].0, value))),
        as_map(entries.update(index, (entries[index].0, value))) == as_map(entries).insert(
            entries[index].0,
            value,
        ),
{
    let key = entries[index].0;
    let changed = entries.update(index, (key, value));
    assert forall|i: int, j: int| 0 <= i < j < changed.len() implies (#[trigger] changed[i]).0 != (
    #[trigger] changed[j]).0 by {
        assert(entries[i].0 != entries[j].0);
    }
    assert forall|k: K| #[trigger] as_map(changed).dom().contains(k) <==> as_map(entries).insert(
        key,
        value,
    ).dom().contains(k) by {
        if has_key(changed, k) {
            let i = key_index(changed, k);
            assert(entries[i].0 == k);
        }
        if has_key(entries, k) {
            let i = key_index(entries, k);
            assert(changed[i].0 == k);
        }
        if k == key {
            assert(changed[index].0 == k);
        }
    }
    assert forall|k: K| #[trigger] as_map(changed).dom().contains(k) implies as_map(changed)[k]
        == as_map(entries).insert(key, value)[k] by {
        let i = key_index(changed, k);
        lemma_entry(changed, i);
        assert(entries[i].0 == k);
        lemma_entry(entries, i);
    }
    assert(as_map(changed) =~= as_map(entries).insert(key, value));
}

/// Taking out the entry at a place takes its key out of the map.
pub proof fn lemma_remove<K, V>(entries: Seq<(K, V)>, index: int)
    requires
        distinct_keys(entries),
        0 <= index < entries.len(),
    ensures
        distinct_keys(entries.remove(index)),
        as_map(entries.remove(index)) == as_map(entries).remove(entries[index].0),
{
    let key = entries[index].0;
    let shorter = entries.remove(index);
    assert forall|i: int| 0 <= i < shorter.len() implies #[trigger] shorter[i] == entries[if i
        < index {
        i
    } else {
        i + 1
    }] by {}
    assert forall|i: int, j: int| 0 <= i < j < shorter.len() implies (#[trigger] shorter[i]).0 != (
    #[trigger] shorter[j]).0 by {
        let a = if i < index {
            i
        } else {
            i + 1
        };
        let b = if j < index {
            j
        } else {
            j + 1
        };
        assert(entries[a].0 != entries[b].0);
    }
    assert forall|k: K| #[trigger] as_map(shorter).dom().contains(k) <==> as_map(entries).remove(
        key,
    ).dom().contains(k) by {
        if has_key(shorter, k) {
            let i = key_index(shorter, k);
            let a = if i < index {
                i
            } else {
                i + 1
            };
            assert(entries[a].0 == k);
            if a < index {
                assert(entries[a].0 != entries[index].0);
            } else {
                assert(entries[index].0 != entries[a].0);
            }
        }
        if has_key(entries, k) && k != key {
            let i = key_index(entries, k);
            let a = if i < index {
                i
            } else {
                i - 1
            };
            assert(shorter[a].0 == k);
        }
    }
    assert forall|k: K| #[trigger] as_map(shorter).dom().contains(k) implies as_map(shorter)[k]
        == as_map(entries).remove(key)[k] by {
        let i = key_index(shorter, k);
        lemma_entry(shorter, i);
        let a = if i < index {
            i
        } else {
            i + 1
        };
        assert(entries[a].0 == k);
        lemma_entry(entries, a);
    }
    assert(as_map(shorter) =~= as_map(entries).remove(key));
}

/// A key that no entry has is no key of the map.
pub proof fn lemma_absent<K, V>(entries: Seq<(K, V)>, key: K)
    requires
        forall|i: int| 0 <= i < entries.len() ==> (#[trigger] entries[i]).0 != key,
    ensures
        !as_map(entries).dom().contains(key),
{
}

} // verus!
