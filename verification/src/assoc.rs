use vstd::prelude::*;

verus! {

/// `i` is the first position whose key reads `key`.
pub open spec fn is_first_key_at<K: View, V>(entries: Seq<(K, V)>, key: K::V, i: int) -> bool {
    &&& 0 <= i < entries.len()
    &&& entries[i].0@ == key
    &&& forall|j: int| 0 <= j < i ==> entries[j].0@ != key
}

/// The position of the first entry whose key reads `key`, if there is one.
pub open spec fn key_index<K: View, V>(entries: Seq<(K, V)>, key: K::V) -> Option<int> {
    if exists|i: int| is_first_key_at(entries, key, i) {
        Some(choose|i: int| is_first_key_at(entries, key, i))
    } else {
        None
    }
}

/// The value stored under `key`: that of the first entry with that key.
pub open spec fn lookup<K: View, V>(entries: Seq<(K, V)>, key: K::V) -> Option<V> {
    match key_index(entries, key) {
        Some(i) => Some(entries[i].1),
        None => None,
    }
}

/// The entries after storing `value` under `key`: the first entry with that
/// key is replaced in place, or a new entry is added at the end.
pub open spec fn insert_entry<K: View, V>(entries: Seq<(K, V)>, key: K, value: V) -> Seq<(K, V)> {
    match key_index(entries, key@) {
        Some(i) => entries.update(i, (key, value)),
        None => entries.push((key, value)),
    }
}

/// A first position of a key is the one `key_index` names.
pub proof fn lemma_key_index_at<K: View, V>(entries: Seq<(K, V)>, key: K::V, i: int)
    requires
        is_first_key_at(entries, key, i),
    ensures
        key_index(entries, key) == Some(i),
{
    let c = choose|c: int| is_first_key_at(entries, key, c);
    assert(is_first_key_at(entries, key, c));
    if c < i {
        assert(entries[c].0@ != key);
    } else if i < c {
        assert(entries[i].0@ != key);
    }
}

/// When some entry carries `key`, `key_index` finds one.
pub proof fn lemma_key_index_some<K: View, V>(entries: Seq<(K, V)>, key: K::V, j: int)
    requires
        0 <= j < entries.len(),
        entries[j].0@ == key,
    ensures
        key_index(entries, key) is Some,
    decreases j,
{
    if forall|k: int| 0 <= k < j ==> entries[k].0@ != key {
        lemma_key_index_at(entries, key, j);
    } else {
        let k = choose|k: int| 0 <= k < j && entries[k].0@ == key;
        lemma_key_index_some(entries, key, k);
    }
}

/// Without a `key_index`, no entry carries `key`.
pub proof fn lemma_key_index_none<K: View, V>(entries: Seq<(K, V)>, key: K::V)
    requires
        key_index(entries, key) is None,
    ensures
        forall|j: int| 0 <= j < entries.len() ==> entries[j].0@ != key,
{
    assert forall|j: int| 0 <= j < entries.len() implies entries[j].0@ != key by {
        if entries[j].0@ == key {
            lemma_key_index_some(entries, key, j);
        }
    }
}

/// A value stored under a key is what a lookup of that key then finds.
pub proof fn lemma_lookup_insert_same<K: View, V>(entries: Seq<(K, V)>, key: K, value: V)
    ensures
        lookup(insert_entry(entries, key, value), key@) == Some(value),
{
    let after = insert_entry(entries, key, value);
    match key_index(entries, key@) {
        Some(i) => {
            assert(is_first_key_at(entries, key@, i));
            assert(is_first_key_at(after, key@, i));
            lemma_key_index_at(after, key@, i);
        },
        None => {
            lemma_key_index_none(entries, key@);
            assert(is_first_key_at(after, key@, entries.len() as int));
            lemma_key_index_at(after, key@, entries.len() as int);
        },
    }
}

/// Storing a value under one key leaves every other key's value as it was.
pub proof fn lemma_lookup_insert_other<K: View, V>(
    entries: Seq<(K, V)>,
    key: K,
    value: V,
    other: K::V,
)
    requires
        other != key@,
    ensures
        lookup(insert_entry(entries, key, value), other) == lookup(entries, other),
{
    let after = insert_entry(entries, key, value);
    match key_index(entries, other) {
        Some(i) => {
            assert(is_first_key_at(entries, other, i));
            assert(is_first_key_at(after, other, i));
            lemma_key_index_at(after, other, i);
        },
        None => {
            lemma_key_index_none(entries, other);
            assert forall|j: int| 0 <= j < after.len() implies after[j].0@ != other by {}
            if key_index(after, other) is Some {
                let i = key_index(after, other)->0;
                assert(is_first_key_at(after, other, i));
            }
        },
    }
}

/// Storing a value under a key changes nothing but that key's entry: the
/// entries keep their places, the key's first entry takes the new value,
/// and only a new key adds one entry, at the end.
pub proof fn lemma_insert_entry_shape<K: View, V>(entries: Seq<(K, V)>, key: K, value: V)
    ensures
        insert_entry(entries, key, value).len() == entries.len() + (if key_index(entries, key@) is Some {
            0int
        } else {
            1int
        }),
        forall|i: int|
            0 <= i < entries.len() && entries[i].0@ != key@ ==> insert_entry(entries, key, value)[i]
                == entries[i],
        keys_distinct(entries) ==> keys_distinct(insert_entry(entries, key, value)),
{
    if keys_distinct(entries) {
        lemma_insert_entry_distinct(entries, key, value);
    }
    match key_index(entries, key@) {
        Some(i) => {
            assert(is_first_key_at(entries, key@, i));
        },
        None => {},
    }
}

/// A list of entries read as a map: each entry stored in turn, so that a
/// key listed twice keeps its last value, at its first place.
pub open spec fn inserted<K: View, V>(s: Seq<(K, V)>) -> Seq<(K, V)>
    decreases s.len(),
{
    if s.len() == 0 {
        Seq::empty()
    } else {
        insert_entry(inserted(s.drop_last()), s.last().0, s.last().1)
    }
}

/// No two entries have keys that read alike.
pub open spec fn keys_distinct<K: View, V>(s: Seq<(K, V)>) -> bool {
    forall|i: int, j: int| 0 <= i < j < s.len() ==> s[i].0@ != s[j].0@
}

/// Storing a value keeps the keys distinct.
pub proof fn lemma_insert_entry_distinct<K: View, V>(entries: Seq<(K, V)>, key: K, value: V)
    requires
        keys_distinct(entries),
    ensures
        keys_distinct(insert_entry(entries, key, value)),
{
    let after = insert_entry(entries, key, value);
    match key_index(entries, key@) {
        Some(i) => {
            assert(is_first_key_at(entries, key@, i));
            assert forall|a: int, b: int| 0 <= a < b < after.len() implies after[a].0@
                != after[b].0@ by {
                if a != i && b != i {
                    assert(after[a] == entries[a] && after[b] == entries[b]);
                } else if a == i {
                    assert(after[b] == entries[b]);
                } else {
                    assert(after[a] == entries[a]);
                }
            }
        },
        None => {
            lemma_key_index_none(entries, key@);
            assert forall|a: int, b: int| 0 <= a < b < after.len() implies after[a].0@
                != after[b].0@ by {
                if b < entries.len() {
                    assert(after[a] == entries[a] && after[b] == entries[b]);
                } else {
                    assert(after[a] == entries[a]);
                }
            }
        },
    }
}

/// A list read as a map has distinct keys.
pub proof fn lemma_inserted_distinct<K: View, V>(s: Seq<(K, V)>)
    ensures
        keys_distinct(inserted(s)),
    decreases s.len(),
{
    if s.len() > 0 {
        lemma_inserted_distinct(s.drop_last());
        lemma_insert_entry_distinct(inserted(s.drop_last()), s.last().0, s.last().1);
    }
}

/// Finds the first entry whose key reads `key`.
pub fn find_string_key<V>(entries: &Vec<(String, V)>, key: &str) -> (r: Option<usize>)
    ensures
        match r {
            Some(i) => key_index(entries@, key@) == Some(i as int),
            None => key_index(entries@, key@) is None,
        },
{
    let wanted = String::from_str(key);
    let n = entries.len();
    let mut i: usize = 0;
    while i < n
        invariant
            n == entries@.len(),
            i <= n,
            wanted@ == key@,
            forall|j: int| 0 <= j < i ==> entries@[j].0@ != key@,
        decreases n - i,
    {
        if entries[i].0 == wanted {
            proof {
                lemma_key_index_at(entries@, key@, i as int);
            }
            return Some(i);
        }
        i = i + 1;
    }
    proof {
        if key_index(entries@, key@) is Some {
            let k = key_index(entries@, key@)->0;
            assert(is_first_key_at(entries@, key@, k));
        }
    }
    None
}

/// Stores `value` under `key`, as a map's `insert` does.
pub fn insert_string_key<V>(entries: &mut Vec<(String, V)>, key: String, value: V)
    ensures
        final(entries)@ == insert_entry(old(entries)@, key, value),
{
    match find_string_key(entries, key.as_str()) {
        Some(i) => {
            entries.set(i, (key, value));
        },
        None => {
            entries.push((key, value));
        },
    }
}

} // verus!
