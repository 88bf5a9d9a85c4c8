//! First-match lookup in association lists, the representation used for the library's keyed tables.

use vstd::prelude::*;

verus! {

/// `i` is the first position of `entries` whose key reads `key`.
pub open spec fn key_at<V>(entries: Seq<(String, V)>, key: Seq<char>, i: int) -> bool {
    &&& 0 <= i < entries.len()
    &&& entries[i].0@ == key
    &&& forall|j: int| 0 <= j < i ==> (#[trigger] entries[j]).0@ != key
}

/// The value stored under `key`, taken from the first entry with that key.
pub open spec fn lookup<V>(entries: Seq<(String, V)>, key: Seq<char>) -> Option<V> {
    if exists|i: int| key_at(entries, key, i) {
        Some(entries[choose|i: int| key_at(entries, key, i)].1)
    } else {
        None
    }
}

/// Whether some entry has the key `key`.
pub open spec fn has_key<V>(entries: Seq<(String, V)>, key: Seq<char>) -> bool {
    exists|i: int| 0 <= i < entries.len() && (#[trigger] entries[i]).0@ == key
}

/// The first position of a key is unique.
pub proof fn lemma_key_at_unique<V>(entries: Seq<(String, V)>, key: Seq<char>, i: int, j: int)
    requires
        key_at(entries, key, i),
        key_at(entries, key, j),
    ensures
        i == j,
{
    if i < j {
        assert(entries[i].0@ != key);
    } else if j < i {
        assert(entries[j].0@ != key);
    }
}

/// Returns the first position of `key` among the keys of `entries`.
pub fn find_key<V>(entries: &Vec<(String, V)>, key: &str) -> (r: Option<usize>)
    ensures
        match r {
            Some(i) => key_at(entries@, key@, i as int),
            None => !has_key(entries@, key@),
        },
{
    let wanted: String = key.to_owned();
    let mut i: usize = 0;
    while i < entries.len()
        invariant
            i <= entries.len(),
            wanted@ == key@,
            forall|j: int| 0 <= j < i ==> (#[trigger] entries@[j]).0@ != key@,
        decreases entries.len() - i,
    {
        if entries[i].0 == wanted {
            return Some(i);
        }
        i = i + 1;
    }
    None
}

/// Looking a key up through its first position gives the stored value.
pub proof fn lemma_lookup_at<V>(entries: Seq<(String, V)>, key: Seq<char>, i: int)
    requires
        key_at(entries, key, i),
    ensures
        lookup(entries, key) == Some(entries[i].1),
{
    let c = choose|c: int| key_at(entries, key, c);
    lemma_key_at_unique(entries, key, i, c);
}

/// A missing key looks up to nothing.
pub proof fn lemma_lookup_none<V>(entries: Seq<(String, V)>, key: Seq<char>)
    requires
        !has_key(entries, key),
    ensures
        lookup(entries, key) is None,
{
    if exists|i: int| key_at(entries, key, i) {
        let i = choose|i: int| key_at(entries, key, i);
        assert(0 <= i < entries.len() && entries[i].0@ == key);
    }
}

} // verus!

verus! {

/// No key occurs twice among the keys of `entries`.
pub open spec fn keys_unique<K, V>(entries: Seq<(K, V)>) -> bool {
    forall|i: int, j: int|
        0 <= i < entries.len() && 0 <= j < entries.len() && i != j ==> (#[trigger] entries[i]).0
            != (#[trigger] entries[j]).0
}

/// With unique keys, every key found at a position is the first of its kind there.
pub proof fn lemma_unique_first_at<K, V>(entries: Seq<(K, V)>, i: int)
    requires
        keys_unique(entries),
        0 <= i < entries.len(),
    ensures
        first_at(entries, entries[i].0, i),
{
    assert forall|j: int| 0 <= j < i implies (#[trigger] entries[j]).0 != entries[i].0 by {
    }
}

/// The keys of `entries`, in order.
pub open spec fn keys_of<K, V>(entries: Seq<(K, V)>) -> Seq<K> {
    entries.map_values(|p: (K, V)| p.0)
}

/// A key looks up to something exactly when it is one of the keys.
pub proof fn lemma_first_lookup_contains<K, V>(entries: Seq<(K, V)>, key: K)
    ensures
        (first_lookup(entries, key) is Some) == keys_of(entries).contains(key),
{
    if first_lookup(entries, key) is Some {
        let i = choose|i: int| first_at(entries, key, i);
        assert(keys_of(entries)[i] == key);
    } else if keys_of(entries).contains(key) {
        let i = choose|i: int| 0 <= i < keys_of(entries).len() && keys_of(entries)[i] == key;
        lemma_first_lookup_absent(entries, key, i);
    }
}

/// Keys that are unique stay unique when each is looked up: the list of keys has no duplicates.
pub proof fn lemma_keys_no_duplicates<K, V>(entries: Seq<(K, V)>)
    requires
        keys_unique(entries),
    ensures
        keys_of(entries).no_duplicates(),
{
    let ks = keys_of(entries);
    assert forall|i: int, j: int| 0 <= i < ks.len() && 0 <= j < ks.len() && i != j implies ks[i] != ks[j] by {
        assert(ks[i] == entries[i].0 && ks[j] == entries[j].0);
    }
}

/// `i` is the first position of `key` among the keys of `entries`.
pub open spec fn first_at<K, V>(entries: Seq<(K, V)>, key: K, i: int) -> bool {
    &&& 0 <= i < entries.len()
    &&& entries[i].0 == key
    &&& forall|j: int| 0 <= j < i ==> (#[trigger] entries[j]).0 != key
}

/// The value stored under `key`, taken from the first entry with that key.
pub open spec fn first_lookup<K, V>(entries: Seq<(K, V)>, key: K) -> Option<V> {
    if exists|i: int| first_at(entries, key, i) {
        Some(entries[choose|i: int| first_at(entries, key, i)].1)
    } else {
        None
    }
}

/// Looking a key up through its first position gives the stored value.
pub proof fn lemma_first_lookup_at<K, V>(entries: Seq<(K, V)>, key: K, i: int)
    requires
        first_at(entries, key, i),
    ensures
        first_lookup(entries, key) == Some(entries[i].1),
{
    let c = choose|c: int| first_at(entries, key, c);
    if c < i {
        assert(entries[c].0 != key);
    } else if i < c {
        assert(entries[i].0 != key);
    }
}

/// A key that no entry holds looks up to nothing.
pub proof fn lemma_first_lookup_none<K, V>(entries: Seq<(K, V)>, key: K)
    requires
        forall|i: int| 0 <= i < entries.len() ==> (#[trigger] entries[i]).0 != key,
    ensures
        first_lookup(entries, key) is None,
{
    if exists|i: int| first_at(entries, key, i) {
        let i = choose|i: int| first_at(entries, key, i);
        assert(entries[i].0 == key);
    }
}

/// A key that looks up to nothing is held by no entry.
pub proof fn lemma_first_lookup_absent<K, V>(entries: Seq<(K, V)>, key: K, i: int)
    requires
        first_lookup(entries, key) is None,
        0 <= i < entries.len(),
    ensures
        entries[i].0 != key,
    decreases i,
{
    if entries[i].0 == key {
        if forall|j: int| 0 <= j < i ==> (#[trigger] entries[j]).0 != key {
            assert(first_at(entries, key, i));
        } else {
            let j = choose|j: int| 0 <= j < i && (#[trigger] entries[j]).0 == key;
            lemma_first_lookup_absent(entries, key, j);
        }
    }
}

/// Appending an entry leaves earlier keys as they were and adds its own key when it is new.
pub proof fn lemma_first_lookup_push<K, V>(entries: Seq<(K, V)>, entry: (K, V), key: K)
    ensures
        first_lookup(entries.push(entry), key) == if first_lookup(entries, key) is Some {
            first_lookup(entries, key)
        } else if entry.0 == key {
            Some(entry.1)
        } else {
            None
        },
{
    let after = entries.push(entry);
    if exists|i: int| first_at(entries, key, i) {
        let i = choose|i: int| first_at(entries, key, i);
        assert(first_at(after, key, i));
        lemma_first_lookup_at(after, key, i);
        lemma_first_lookup_at(entries, key, i);
    } else {
        assert forall|j: int| 0 <= j < entries.len() implies (#[trigger] entries[j]).0 != key by {
            lemma_first_lookup_absent(entries, key, j);
        }
        if entry.0 == key {
            assert(first_at(after, key, entries.len() as int));
            lemma_first_lookup_at(after, key, entries.len() as int);
        } else {
            assert forall|j: int| 0 <= j < after.len() implies (#[trigger] after[j]).0 != key by {
                if j < entries.len() {
                    assert(after[j] == entries[j]);
                }
            }
            lemma_first_lookup_none(after, key);
        }
    }
}

/// Replacing the value at the first position of a key changes that key alone.
pub proof fn lemma_first_lookup_set<K, V>(entries: Seq<(K, V)>, i: int, value: V, key: K)
    requires
        0 <= i < entries.len(),
    ensures
        first_lookup(entries.update(i, (entries[i].0, value)), key) == if key == entries[i].0 {
            if first_at(entries, key, i) {
                Some(value)
            } else {
                first_lookup(entries, key)
            }
        } else {
            first_lookup(entries, key)
        },
{
    let after = entries.update(i, (entries[i].0, value));
    assert forall|j: int| 0 <= j < entries.len() implies (#[trigger] after[j]).0 == entries[j].0 by {
        if j == i {
        } else {
            assert(after[j] == entries[j]);
        }
    }
    if exists|c: int| first_at(entries, key, c) {
        let c = choose|c: int| first_at(entries, key, c);
        assert forall|j: int| 0 <= j < c implies (#[trigger] after[j]).0 != key by {
            assert(after[j].0 == entries[j].0);
        }
        assert(after[c].0 == entries[c].0);
        assert(first_at(after, key, c));
        lemma_first_lookup_at(after, key, c);
        lemma_first_lookup_at(entries, key, c);
        if c != i {
            assert(after[c] == entries[c]);
            if first_at(entries, key, i) {
                let cc = choose|cc: int| first_at(entries, key, cc);
                lemma_first_lookup_at(entries, key, i);
            }
        }
    } else {
        assert forall|j: int| 0 <= j < entries.len() implies (#[trigger] entries[j]).0 != key by {
            lemma_first_lookup_absent(entries, key, j);
        }
        assert forall|j: int| 0 <= j < after.len() implies (#[trigger] after[j]).0 != key by {
            assert(after[j].0 == entries[j].0);
        }
        lemma_first_lookup_none(after, key);
    }
}

} // verus!
