//! Keyed tables held as lists of `(key, value)` entries: the value of a key is
//! that of its first entry.
use vstd::prelude::*;
use crate::text::str_eq;

verus! {

/// The value of the first entry whose key is `key`.
pub open spec fn lookup<V>(entries: Seq<(Seq<char>, V)>, key: Seq<char>) -> Option<V>
    decreases entries.len(),
{
    if entries.len() == 0 {
        None
    } else if entries[0].0 == key {
        Some(entries[0].1)
    } else {
        lookup(entries.drop_first(), key)
    }
}

/// A keyed table with its values taken by their views.
pub open spec fn table_view<V: View>(t: Seq<(String, V)>) -> Seq<(Seq<char>, V::V)> {
    t.map_values(|e: (String, V)| (e.0@, e.1@))
}

/// No key occurs twice.
pub open spec fn unique_keys<V>(entries: Seq<(Seq<char>, V)>) -> bool {
    forall|i: int, j: int|
        0 <= i < entries.len() && 0 <= j < entries.len() && i != j ==> entries[i].0
            != entries[j].0
}

/// The first entry with a key gives the value of that key.
pub proof fn lemma_lookup_first<V>(entries: Seq<(Seq<char>, V)>, i: int)
    requires
        0 <= i < entries.len(),
        forall|j: int| 0 <= j < i ==> entries[j].0 != entries[i].0,
    ensures
        lookup(entries, entries[i].0) == Some(entries[i].1),
    decreases entries.len(),
{
    if i > 0 {
        let rest = entries.drop_first();
        assert forall|j: int| 0 <= j < i - 1 implies #[trigger] rest[j].0 != rest[i - 1].0 by {
            assert(rest[j] == entries[j + 1]);
        }
        assert(rest[i - 1] == entries[i]);
        lemma_lookup_first(rest, i - 1);
    }
}

/// With unique keys, every entry gives the value of its key.
pub proof fn lemma_lookup_unique<V>(entries: Seq<(Seq<char>, V)>, i: int)
    requires
        0 <= i < entries.len(),
        unique_keys(entries),
    ensures
        lookup(entries, entries[i].0) == Some(entries[i].1),
{
    lemma_lookup_first(entries, i);
}

/// A key that no entry has has no value.
pub proof fn lemma_lookup_absent<V>(entries: Seq<(Seq<char>, V)>, key: Seq<char>)
    requires
        forall|j: int| 0 <= j < entries.len() ==> entries[j].0 != key,
    ensures
        lookup(entries, key) is None,
    decreases entries.len(),
{
    if entries.len() > 0 {
        let rest = entries.drop_first();
        assert forall|j: int| 0 <= j < rest.len() implies rest[j].0 != key by {
            assert(rest[j] == entries[j + 1]);
        }
        lemma_lookup_absent(rest, key);
    }
}

/// The value of a key is that of some entry with the key.
pub proof fn lemma_lookup_entry<V>(entries: Seq<(Seq<char>, V)>, key: Seq<char>)
    requires
        lookup(entries, key) is Some,
    ensures
        exists|j: int| 0 <= j < entries.len() && #[trigger] entries[j] == (key, lookup(entries, key)->0),
    decreases entries.len(),
{
    if entries[0].0 == key {
        assert(entries[0] == (key, lookup(entries, key)->0));
    } else {
        let rest = entries.drop_first();
        lemma_lookup_entry(rest, key);
        let j = choose|j: int| 0 <= j < rest.len() && #[trigger] rest[j] == (key, lookup(rest, key)->0);
        assert(entries[j + 1] == rest[j]);
    }
}

/// A key has a value exactly when some entry has it.
pub proof fn lemma_lookup_some<V>(entries: Seq<(Seq<char>, V)>, key: Seq<char>)
    ensures
        lookup(entries, key) is Some <==> exists|j: int|
            0 <= j < entries.len() && #[trigger] entries[j].0 == key,
    decreases entries.len(),
{
    if entries.len() > 0 {
        let rest = entries.drop_first();
        lemma_lookup_some(rest, key);
        if exists|j: int| 0 <= j < rest.len() && #[trigger] rest[j].0 == key {
            let j = choose|j: int| 0 <= j < rest.len() && #[trigger] rest[j].0 == key;
            assert(entries[j + 1] == rest[j]);
        }
        if exists|j: int| 0 <= j < entries.len() && #[trigger] entries[j].0 == key {
            let j = choose|j: int| 0 <= j < entries.len() && #[trigger] entries[j].0 == key;
            if j > 0 {
                assert(rest[j - 1] == entries[j]);
            }
        }
    }
}

/// The position of the first entry whose key is `key`.
pub fn first_key<V>(entries: &Vec<(String, V)>, key: &str) -> (r: Option<usize>)
    ensures
        match r {
            Some(i) => i < entries@.len() && entries@[i as int].0@ == key@ && forall|j: int|
                0 <= j < i ==> entries@[j].0@ != key@,
            None => forall|j: int| 0 <= j < entries@.len() ==> entries@[j].0@ != key@,
        },
{
    let mut i: usize = 0;
    while i < entries.len()
        invariant
            i <= entries@.len(),
            forall|j: int| 0 <= j < i ==> entries@[j].0@ != key@,
        decreases entries@.len() - i,
    {
        if str_eq(entries[i].0.as_str(), key) {
            return Some(i);
        }
        i = i + 1;
    }
    None
}

/// A keyed table with its keys taken by their views.
pub open spec fn keys_of<V>(t: Seq<(String, V)>) -> Seq<(Seq<char>, V)> {
    t.map_values(|e: (String, V)| (e.0@, e.1))
}

/// The value of the first entry with the given key.
pub fn find_value<'a, V>(entries: &'a Vec<(String, V)>, key: &str) -> (r: Option<&'a V>)
    ensures
        match r {
            Some(v) => lookup(keys_of(entries@), key@) == Some(*v),
            None => lookup(keys_of(entries@), key@) is None,
        },
{
    let ghost t = keys_of(entries@);
    match first_key(entries, key) {
        Some(i) => {
            proof {
                assert forall|j: int| 0 <= j < i implies t[j].0 != t[i as int].0 by {
                    assert(t[j].0 == entries@[j].0@);
                }
                lemma_lookup_first(t, i as int);
            }
            Some(&entries[i].1)
        },
        None => {
            proof {
                assert forall|j: int| 0 <= j < t.len() implies t[j].0 != key@ by {
                    assert(t[j].0 == entries@[j].0@);
                }
                lemma_lookup_absent(t, key@);
            }
            None
        },
    }
}

} // verus!
