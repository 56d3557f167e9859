//! Lists of entries found by a string key.
//!
//! The registries of this library keep their entries in a `Vec` of
//! `(key, value)` pairs with no key twice. This module holds the model of
//! such a list, a sequence of pairs whose keys are character sequences, and
//! the search that every registry shares.
//!
//! A hash map would find an entry faster. But what vstd says of the hash
//! maps of the standard library it says for keys that have a hash model,
//! which integers have and `String` has not: of a map keyed by text nothing
//! could be proved. A list lets the contracts say which entry a key finds,
//! and in which order the entries stand.

use vstd::prelude::*;
use crate::text::str_eq;

verus! {

/// No key occurs twice in `s`.
pub open spec fn distinct_keys<V>(s: Seq<(Seq<char>, V)>) -> bool {
    forall|i: int, j: int|
        0 <= i < s.len() && 0 <= j < s.len() && i != j ==> (#[trigger] s[i]).0 != (
        #[trigger] s[j]).0
}

/// The index of the first entry of `s` at or after `from` whose key is
/// `key`, or the length of `s` if there is none.
pub open spec fn position_from<V>(s: Seq<(Seq<char>, V)>, key: Seq<char>, from: int) -> int
    decreases s.len() - from,
{
    if from >= s.len() {
        s.len() as int
    } else if s[from].0 == key {
        from
    } else {
        position_from(s, key, from + 1)
    }
}

/// The index of the first entry of `s` whose key is `key`, or the length of
/// `s` if there is none.
pub open spec fn position<V>(s: Seq<(Seq<char>, V)>, key: Seq<char>) -> int {
    position_from(s, key, 0)
}

/// Some entry of `s` has the key `key`.
pub open spec fn has_key<V>(s: Seq<(Seq<char>, V)>, key: Seq<char>) -> bool {
    position(s, key) < s.len()
}

/// The value of the first entry of `s` with the key `key`.
pub open spec fn value_of<V>(s: Seq<(Seq<char>, V)>, key: Seq<char>) -> V
    recommends
        has_key(s, key),
{
    s[position(s, key)].1
}

/// The value under `key`, if there is one.
pub open spec fn lookup<V>(s: Seq<(Seq<char>, V)>, key: Seq<char>) -> Option<V> {
    if has_key(s, key) {
        Some(value_of(s, key))
    } else {
        None
    }
}

/// `s` with `entry` in it: in place of the entry with its key, if there is
/// one, else at the end.
pub open spec fn upsert<V>(s: Seq<(Seq<char>, V)>, entry: (Seq<char>, V)) -> Seq<(Seq<char>, V)> {
    if has_key(s, entry.0) {
        s.update(position(s, entry.0), entry)
    } else {
        s.push(entry)
    }
}

/// `s` without the entry under `key`, if there is one.
pub open spec fn without<V>(s: Seq<(Seq<char>, V)>, key: Seq<char>) -> Seq<(Seq<char>, V)> {
    if has_key(s, key) {
        s.remove(position(s, key))
    } else {
        s
    }
}

/// The values of `s`, in order.
pub open spec fn values<V>(s: Seq<(Seq<char>, V)>) -> Seq<V> {
    Seq::new(s.len(), |i: int| s[i].1)
}

/// The model of a list of entries: each key by its characters.
pub open spec fn keyed_view<V>(s: Seq<(String, V)>) -> Seq<(Seq<char>, V)> {
    Seq::new(s.len(), |i: int| (s[i].0@, s[i].1))
}

/// The keys of `s`, in order.
pub open spec fn keys<V>(s: Seq<(Seq<char>, V)>) -> Seq<Seq<char>> {
    Seq::new(s.len(), |i: int| s[i].0)
}

/// What `position_from` finds: the first match at or after `from`.
pub proof fn lemma_position_from<V>(s: Seq<(Seq<char>, V)>, key: Seq<char>, from: int)
    requires
        0 <= from <= s.len(),
    ensures
        from <= position_from(s, key, from) <= s.len(),
        position_from(s, key, from) < s.len() ==> s[position_from(s, key, from)].0 == key,
        forall|j: int| from <= j < position_from(s, key, from) ==> (#[trigger] s[j]).0 != key,
    decreases s.len() - from,
{
    if from < s.len() && s[from].0 != key {
        lemma_position_from(s, key, from + 1);
    }
}

/// In a list without repeated keys, the one entry with a key is where
/// `position` says.
pub proof fn lemma_position_unique<V>(s: Seq<(Seq<char>, V)>, key: Seq<char>, i: int)
    requires
        distinct_keys(s),
        0 <= i < s.len(),
        s[i].0 == key,
    ensures
        position(s, key) == i,
{
    lemma_position_from(s, key, 0);
    let p = position(s, key);
    if p != i {
        assert(s[p].0 == s[i].0);
    }
}

/// A key that no entry has is found nowhere.
pub proof fn lemma_position_absent<V>(s: Seq<(Seq<char>, V)>, key: Seq<char>)
    requires
        forall|j: int| 0 <= j < s.len() ==> (#[trigger] s[j]).0 != key,
    ensures
        position(s, key) == s.len(),
{
    lemma_position_from(s, key, 0);
}

/// Appending an entry under a new key keeps the keys distinct, leaves every
/// old lookup as it was and makes the new key found.
pub proof fn lemma_push<V>(s: Seq<(Seq<char>, V)>, entry: (Seq<char>, V), other: Seq<char>)
    requires
        distinct_keys(s),
        !has_key(s, entry.0),
    ensures
        distinct_keys(s.push(entry)),
        lookup(s.push(entry), entry.0) == Some(entry.1),
        other != entry.0 ==> lookup(s.push(entry), other) == lookup(s, other),
{
    let t = s.push(entry);
    lemma_position_from(s, entry.0, 0);
    assert forall|i: int, j: int| 0 <= i < t.len() && 0 <= j < t.len() && i != j implies (
    #[trigger] t[i]).0 != (#[trigger] t[j]).0 by {
        if i < s.len() && j < s.len() {
            assert(s[i].0 != s[j].0);
        } else if i < s.len() {
            assert(s[i].0 != entry.0);
        } else {
            assert(s[j].0 != entry.0);
        }
    }
    lemma_position_unique(t, entry.0, s.len() as int);
    if other != entry.0 {
        lemma_position_from(s, other, 0);
        let p = position(s, other);
        if p < s.len() {
            assert(t[p] == s[p]);
            lemma_position_unique(t, other, p);
        } else {
            assert forall|j: int| 0 <= j < t.len() implies (#[trigger] t[j]).0 != other by {
                if j < s.len() {
                    assert(t[j] == s[j]);
                }
            }
            lemma_position_absent(t, other);
        }
    }
}

/// Replacing the value of one entry keeps the keys distinct, changes the
/// lookup of its key and no other.
pub proof fn lemma_update<V>(
    s: Seq<(Seq<char>, V)>,
    i: int,
    entry: (Seq<char>, V),
    other: Seq<char>,
)
    requires
        distinct_keys(s),
        0 <= i < s.len(),
        entry.0 == s[i].0,
    ensures
        distinct_keys(s.update(i, entry)),
        lookup(s.update(i, entry), entry.0) == Some(entry.1),
        other != entry.0 ==> lookup(s.update(i, entry), other) == lookup(s, other),
        keys(s.update(i, entry)) == keys(s),
{
    let t = s.update(i, entry);
    assert forall|a: int, b: int| 0 <= a < t.len() && 0 <= b < t.len() && a != b implies (
    #[trigger] t[a]).0 != (#[trigger] t[b]).0 by {
        assert(t[a].0 == s[a].0);
        assert(t[b].0 == s[b].0);
    }
    lemma_position_unique(t, entry.0, i);
    assert(keys(t) =~= keys(s));
    if other != entry.0 {
        lemma_position_from(s, other, 0);
        let p = position(s, other);
        if p < s.len() {
            assert(t[p] == s[p]);
            lemma_position_unique(t, other, p);
        } else {
            assert forall|j: int| 0 <= j < t.len() implies (#[trigger] t[j]).0 != other by {
                assert(t[j].0 == s[j].0);
            }
            lemma_position_absent(t, other);
        }
    }
}

/// Removing one entry keeps the keys distinct, makes its key absent and
/// leaves every other lookup as it was.
pub proof fn lemma_remove<V>(s: Seq<(Seq<char>, V)>, i: int, other: Seq<char>)
    requires
        distinct_keys(s),
        0 <= i < s.len(),
    ensures
        distinct_keys(s.remove(i)),
        !has_key(s.remove(i), s[i].0),
        other != s[i].0 ==> lookup(s.remove(i), other) == lookup(s, other),
{
    let t = s.remove(i);
    assert forall|a: int, b: int| 0 <= a < t.len() && 0 <= b < t.len() && a != b implies (
    #[trigger] t[a]).0 != (#[trigger] t[b]).0 by {
        let a0 = if a < i { a } else { a + 1 };
        let b0 = if b < i { b } else { b + 1 };
        assert(t[a] == s[a0]);
        assert(t[b] == s[b0]);
    }
    assert forall|j: int| 0 <= j < t.len() implies (#[trigger] t[j]).0 != s[i].0 by {
        let j0 = if j < i { j } else { j + 1 };
        assert(t[j] == s[j0]);
    }
    lemma_position_absent(t, s[i].0);
    if other != s[i].0 {
        lemma_position_from(s, other, 0);
        let p = position(s, other);
        if p < s.len() {
            let q = if p < i { p } else { p - 1 };
            assert(t[q] == s[p]);
            lemma_position_unique(t, other, q);
        } else {
            assert forall|j: int| 0 <= j < t.len() implies (#[trigger] t[j]).0 != other by {
                let j0 = if j < i { j } else { j + 1 };
                assert(t[j] == s[j0]);
            }
            lemma_position_absent(t, other);
        }
    }
}

/// What every lookup finds after an append under a new key.
pub proof fn lemma_push_all<V>(s: Seq<(Seq<char>, V)>, entry: (Seq<char>, V))
    requires
        distinct_keys(s),
        !has_key(s, entry.0),
    ensures
        distinct_keys(s.push(entry)),
        forall|k: Seq<char>| #[trigger]
            lookup(s.push(entry), k) == if k == entry.0 {
                Some(entry.1)
            } else {
                lookup(s, k)
            },
{
    assert forall|k: Seq<char>| #[trigger]
        lookup(s.push(entry), k) == if k == entry.0 {
            Some(entry.1)
        } else {
            lookup(s, k)
        } by {
        lemma_push(s, entry, k);
    }
    lemma_push(s, entry, entry.0);
}

/// What every lookup finds after the value of one entry is replaced.
pub proof fn lemma_update_all<V>(s: Seq<(Seq<char>, V)>, i: int, entry: (Seq<char>, V))
    requires
        distinct_keys(s),
        0 <= i < s.len(),
        entry.0 == s[i].0,
    ensures
        distinct_keys(s.update(i, entry)),
        keys(s.update(i, entry)) == keys(s),
        forall|k: Seq<char>| #[trigger]
            lookup(s.update(i, entry), k) == if k == entry.0 {
                Some(entry.1)
            } else {
                lookup(s, k)
            },
{
    assert forall|k: Seq<char>| #[trigger]
        lookup(s.update(i, entry), k) == if k == entry.0 {
            Some(entry.1)
        } else {
            lookup(s, k)
        } by {
        lemma_update(s, i, entry, k);
    }
    lemma_update(s, i, entry, entry.0);
}

/// What every lookup finds after one entry is removed.
pub proof fn lemma_remove_all<V>(s: Seq<(Seq<char>, V)>, i: int)
    requires
        distinct_keys(s),
        0 <= i < s.len(),
    ensures
        distinct_keys(s.remove(i)),
        forall|k: Seq<char>| #[trigger]
            lookup(s.remove(i), k) == if k == s[i].0 {
                None
            } else {
                lookup(s, k)
            },
{
    assert forall|k: Seq<char>| #[trigger]
        lookup(s.remove(i), k) == if k == s[i].0 {
            None
        } else {
            lookup(s, k)
        } by {
        lemma_remove(s, i, k);
    }
    lemma_remove(s, i, s[i].0);
}

/// What `upsert` does to the lookups: the entry's key finds its value, every
/// other key finds what it found before, and the keys stay distinct.
pub proof fn lemma_upsert<V>(s: Seq<(Seq<char>, V)>, entry: (Seq<char>, V))
    requires
        distinct_keys(s),
    ensures
        distinct_keys(upsert(s, entry)),
        forall|k: Seq<char>| #[trigger]
            lookup(upsert(s, entry), k) == if k == entry.0 {
                Some(entry.1)
            } else {
                lookup(s, k)
            },
{
    lemma_position_from(s, entry.0, 0);
    if has_key(s, entry.0) {
        lemma_update_all(s, position(s, entry.0), entry);
    } else {
        lemma_push_all(s, entry);
    }
}

/// What `without` does to the lookups: the key finds nothing, every other
/// key finds what it found before, and the keys stay distinct.
pub proof fn lemma_without<V>(s: Seq<(Seq<char>, V)>, key: Seq<char>)
    requires
        distinct_keys(s),
    ensures
        distinct_keys(without(s, key)),
        forall|k: Seq<char>| #[trigger]
            lookup(without(s, key), k) == if k == key {
                None
            } else {
                lookup(s, k)
            },
{
    lemma_position_from(s, key, 0);
    if has_key(s, key) {
        lemma_remove_all(s, position(s, key));
    }
}

/// The index of the entry of `entries` under `key`.
pub fn find<V>(entries: &Vec<(String, V)>, key: &str) -> (r: Option<usize>)
    ensures
        match r {
            Some(i) => i == position(keyed_view(entries@), key@) && i < entries.len()
                && entries@[i as int].0@ == key@,
            None => !has_key(keyed_view(entries@), key@),
        },
{
    let ghost model = keyed_view(entries@);
    let mut i: usize = 0;
    while i < entries.len()
        invariant
            i <= entries.len(),
            model == keyed_view(entries@),
            position(model, key@) == position_from(model, key@, i as int),
        decreases entries.len() - i,
    {
        if str_eq(entries[i].0.as_str(), key) {
            return Some(i);
        }
        i += 1;
    }
    None
}

/// The value of the entry of `entries` under `key`.
pub fn get<'a, V>(entries: &'a Vec<(String, V)>, key: &str) -> (r: Option<&'a V>)
    ensures
        match r {
            Some(v) => lookup(keyed_view(entries@), key@) == Some(*v),
            None => lookup(keyed_view(entries@), key@) is None,
        },
{
    match find(entries, key) {
        Some(i) => Some(&entries[i].1),
        None => None,
    }
}

/// Puts `value` under `key`: in place of the value held there, if any, else
/// as a new entry at the end.
pub fn put<V>(entries: &mut Vec<(String, V)>, key: String, value: V)
    ensures
        keyed_view(final(entries)@) == upsert(keyed_view(old(entries)@), (key@, value)),
{
    match find(entries, key.as_str()) {
        Some(i) => {
            entries.set(i, (key, value));
        },
        None => {
            entries.push((key, value));
        },
    }
    assert(keyed_view(entries@) =~= upsert(keyed_view(old(entries)@), (key@, value)));
}

/// Takes the entry under `key` out, if there is one, and hands back its
/// value.
pub fn take<V>(entries: &mut Vec<(String, V)>, key: &str) -> (r: Option<V>)
    ensures
        keyed_view(final(entries)@) == without(keyed_view(old(entries)@), key@),
        r == lookup(keyed_view(old(entries)@), key@),
{
    match find(entries, key) {
        Some(i) => {
            let entry = entries.remove(i);
            assert(keyed_view(entries@) =~= without(keyed_view(old(entries)@), key@));
            Some(entry.1)
        },
        None => None,
    }
}

/// `s` with `f` applied to every value.
pub open spec fn mapped<V, W>(s: Seq<(Seq<char>, V)>, f: spec_fn(V) -> W) -> Seq<(Seq<char>, W)> {
    Seq::new(s.len(), |i: int| (s[i].0, f(s[i].1)))
}

/// Mapping the values moves no key.
pub proof fn lemma_mapped_position<V, W>(
    s: Seq<(Seq<char>, V)>,
    f: spec_fn(V) -> W,
    key: Seq<char>,
    from: int,
)
    requires
        0 <= from <= s.len(),
    ensures
        position_from(mapped(s, f), key, from) == position_from(s, key, from),
    decreases s.len() - from,
{
    if from < s.len() && s[from].0 != key {
        lemma_mapped_position(s, f, key, from + 1);
    }
}

/// Mapping the values commutes with lookup and `without`, and keeps
/// distinct keys distinct.
pub proof fn lemma_mapped<V, W>(s: Seq<(Seq<char>, V)>, f: spec_fn(V) -> W, key: Seq<char>)
    ensures
        has_key(mapped(s, f), key) == has_key(s, key),
        has_key(s, key) ==> value_of(mapped(s, f), key) == f(value_of(s, key)),
        mapped(without(s, key), f) == without(mapped(s, f), key),
        distinct_keys(s) == distinct_keys(mapped(s, f)),
{
    lemma_mapped_position(s, f, key, 0);
    lemma_position_from(s, key, 0);
    assert(mapped(without(s, key), f) =~= without(mapped(s, f), key));
    let m = mapped(s, f);
    if distinct_keys(s) {
        assert forall|i: int, j: int| 0 <= i < m.len() && 0 <= j < m.len() && i != j implies (
        #[trigger] m[i]).0 != (#[trigger] m[j]).0 by {
            assert(s[i].0 != s[j].0);
        }
    }
    if distinct_keys(m) {
        assert forall|i: int, j: int| 0 <= i < s.len() && 0 <= j < s.len() && i != j implies (
        #[trigger] s[i]).0 != (#[trigger] s[j]).0 by {
            assert(m[i].0 != m[j].0);
        }
    }
}

/// Mapping the values commutes with `upsert`.
pub proof fn lemma_mapped_upsert<V, W>(
    s: Seq<(Seq<char>, V)>,
    f: spec_fn(V) -> W,
    key: Seq<char>,
    value: V,
)
    ensures
        mapped(upsert(s, (key, value)), f) == upsert(mapped(s, f), (key, f(value))),
{
    lemma_mapped_position(s, f, key, 0);
    lemma_position_from(s, key, 0);
    assert(mapped(upsert(s, (key, value)), f) =~= upsert(mapped(s, f), (key, f(value))));
}

} // verus!
