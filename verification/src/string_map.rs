//! A mapping from strings to values that keeps its entries in the order in
//! which their keys first came.
//!
//! The value of a [`StringMap`] is the sequence of its entries, each a key (as
//! a sequence of characters) with its value. No key stands in it twice.

use crate::text::str_eq;
use vstd::prelude::*;

verus! {

/// Whether some entry has the key `key`.
pub open spec fn has_key<V>(entries: Seq<(Seq<char>, V)>, key: Seq<char>) -> bool {
    exists|i: int| 0 <= i < entries.len() && (#[trigger] entries[i]).0 == key
}

/// The place of an entry with the key `key`, where there is one.
pub open spec fn index_of_key<V>(entries: Seq<(Seq<char>, V)>, key: Seq<char>) -> int {
    choose|i: int| 0 <= i < entries.len() && (#[trigger] entries[i]).0 == key
}

/// The value stored under `key`, if any.
pub open spec fn lookup<V>(entries: Seq<(Seq<char>, V)>, key: Seq<char>) -> Option<V> {
    if has_key(entries, key) {
        Some(entries[index_of_key(entries, key)].1)
    } else {
        None
    }
}

/// No key stands in two entries.
pub open spec fn distinct_keys<V>(entries: Seq<(Seq<char>, V)>) -> bool {
    forall|i: int, j: int|
        0 <= i < j < entries.len() ==> (#[trigger] entries[i]).0 != (#[trigger] entries[j]).0
}

/// The entries after `value` is stored under `key`: an entry with that key
/// keeps its place and takes the new value; a new key goes to the end.
pub open spec fn upsert<V>(entries: Seq<(Seq<char>, V)>, key: Seq<char>, value: V) -> Seq<
    (Seq<char>, V),
> {
    if has_key(entries, key) {
        entries.update(index_of_key(entries, key), (key, value))
    } else {
        entries.push((key, value))
    }
}

/// The entries without the one under `key`; the others keep their order.
pub open spec fn without<V>(entries: Seq<(Seq<char>, V)>, key: Seq<char>) -> Seq<(Seq<char>, V)> {
    if has_key(entries, key) {
        entries.remove(index_of_key(entries, key))
    } else {
        entries
    }
}

/// With distinct keys, the entry at place `i` is the one that `index_of_key`
/// names for its key.
pub proof fn lemma_index_of_key<V>(entries: Seq<(Seq<char>, V)>, i: int)
    requires
        distinct_keys(entries),
        0 <= i < entries.len(),
    ensures
        has_key(entries, entries[i].0),
        index_of_key(entries, entries[i].0) == i,
        lookup(entries, entries[i].0) == Some(entries[i].1),
{
    let key = entries[i].0;
    let j = index_of_key(entries, key);
    assert(0 <= j < entries.len() && entries[j].0 == key);
    if j != i {
        if j < i {
            assert(entries[j].0 != entries[i].0);
        } else {
            assert(entries[i].0 != entries[j].0);
        }
    }
}

/// Storing under a key keeps the keys distinct, makes the value the one found
/// under that key, and leaves what is found under every other key as it was.
pub proof fn lemma_upsert<V>(entries: Seq<(Seq<char>, V)>, key: Seq<char>, value: V)
    requires
        distinct_keys(entries),
    ensures
        distinct_keys(upsert(entries, key, value)),
        lookup(upsert(entries, key, value), key) == Some(value),
        forall|other: Seq<char>|
            other != key ==> lookup(upsert(entries, key, value), other) == lookup(entries, other),
        upsert(entries, key, value).len() == if has_key(entries, key) {
            entries.len()
        } else {
            entries.len() + 1
        },
{
    let after = upsert(entries, key, value);
    let at = if has_key(entries, key) {
        index_of_key(entries, key)
    } else {
        entries.len() as int
    };
    assert(0 <= at < after.len() && after[at] == (key, value));
    assert forall|i: int, j: int| 0 <= i < j < after.len() implies (#[trigger] after[i]).0 != (
    #[trigger] after[j]).0 by {
        if has_key(entries, key) {
            assert(entries[at].0 == key);
            if i != at {
                assert(after[i] == entries[i]);
            }
            if j != at {
                assert(after[j] == entries[j]);
            }
            assert(entries[i].0 != entries[j].0);
        } else {
            if j < entries.len() {
                assert(after[i] == entries[i] && after[j] == entries[j]);
                assert(entries[i].0 != entries[j].0);
            } else {
                assert(after[i] == entries[i]);
            }
        }
    }
    lemma_index_of_key(after, at);
    assert forall|other: Seq<char>| other != key implies lookup(after, other) == lookup(
        entries,
        other,
    ) by {
        if has_key(entries, other) {
            let i = index_of_key(entries, other);
            assert(0 <= i < entries.len() && entries[i].0 == other);
            assert(after[i] == entries[i]);
            lemma_index_of_key(after, i);
        } else if has_key(after, other) {
            let i = index_of_key(after, other);
            assert(0 <= i < after.len() && after[i].0 == other);
            assert(i != at);
            assert(after[i] == entries[i]);
        }
    }
}

/// Taking a key out keeps the keys distinct, leaves nothing under that key,
/// and leaves what is found under every other key as it was.
pub proof fn lemma_without<V>(entries: Seq<(Seq<char>, V)>, key: Seq<char>)
    requires
        distinct_keys(entries),
    ensures
        distinct_keys(without(entries, key)),
        !has_key(without(entries, key), key),
        lookup(without(entries, key), key) is None,
        forall|other: Seq<char>|
            other != key ==> lookup(without(entries, key), other) == lookup(entries, other),
        without(entries, key).len() == if has_key(entries, key) {
            entries.len() - 1
        } else {
            entries.len() as int
        },
{
    let after = without(entries, key);
    if has_key(entries, key) {
        let at = index_of_key(entries, key);
        assert(0 <= at < entries.len() && entries[at].0 == key);
        assert forall|i: int| 0 <= i < after.len() implies #[trigger] after[i] == entries[if i
            < at {
            i
        } else {
            i + 1
        }] by {}
        assert forall|i: int, j: int| 0 <= i < j < after.len() implies (#[trigger] after[i]).0 != (
        #[trigger] after[j]).0 by {
            let a = if i < at {
                i
            } else {
                i + 1
            };
            let b = if j < at {
                j
            } else {
                j + 1
            };
            assert(after[i] == entries[a] && after[j] == entries[b]);
            assert(entries[a].0 != entries[b].0);
        }
        if has_key(after, key) {
            let i = index_of_key(after, key);
            assert(0 <= i < after.len() && after[i].0 == key);
            let a = if i < at {
                i
            } else {
                i + 1
            };
            assert(after[i] == entries[a]);
            lemma_index_of_key(entries, a);
        }
        assert forall|other: Seq<char>| other != key implies lookup(after, other) == lookup(
            entries,
            other,
        ) by {
            if has_key(entries, other) {
                let i = index_of_key(entries, other);
                assert(0 <= i < entries.len() && entries[i].0 == other);
                let a = if i < at {
                    i
                } else {
                    i - 1
                };
                assert(after[a] == entries[i]);
                lemma_index_of_key(after, a);
            } else if has_key(after, other) {
                let i = index_of_key(after, other);
                assert(0 <= i < after.len() && after[i].0 == other);
                let a = if i < at {
                    i
                } else {
                    i + 1
                };
                assert(after[i] == entries[a]);
            }
        }
    }
}

/// Storing under a new key and taking that key out again leaves the entries
/// as they were.
pub proof fn lemma_upsert_then_without<V>(entries: Seq<(Seq<char>, V)>, key: Seq<char>, value: V)
    requires
        distinct_keys(entries),
        !has_key(entries, key),
    ensures
        without(upsert(entries, key, value), key) == entries,
{
    let after = upsert(entries, key, value);
    lemma_upsert(entries, key, value);
    let at = entries.len() as int;
    assert(after[at] == (key, value));
    lemma_index_of_key(after, at);
    assert(after.remove(at) =~= entries);
}

/// Taking a key out twice is taking it out once.
pub proof fn lemma_without_twice<V>(entries: Seq<(Seq<char>, V)>, key: Seq<char>)
    requires
        distinct_keys(entries),
    ensures
        without(without(entries, key), key) == without(entries, key),
{
    lemma_without(entries, key);
}

/// A mapping from strings to values of `V`, in the order in which the keys
/// first came.
#[derive(Debug)]
pub struct StringMap<V> {
    entries: Vec<(String, V)>,
}

/// The entries with each key taken as its sequence of characters.
spec fn model<V>(entries: Seq<(String, V)>) -> Seq<(Seq<char>, V)> {
    Seq::new(entries.len(), |i: int| (entries[i].0@, entries[i].1))
}

impl<V> View for StringMap<V> {
    type V = Seq<(Seq<char>, V)>;

    closed spec fn view(&self) -> Seq<(Seq<char>, V)> {
        model(self.entries@)
    }
}

impl<V: Clone> Clone for StringMap<V> {
    /// A map with the same keys in the same order, each value cloned.
    fn clone(&self) -> (copy: Self)
        ensures
            copy@.len() == self@.len(),
            forall|i: int|
                0 <= i < self@.len() ==> (#[trigger] copy@[i]).0 == self@[i].0 && cloned(
                    self@[i].1,
                    copy@[i].1,
                ),
    {
        proof {
            use_type_invariant(self);
        }
        let n = self.entries.len();
        let mut entries: Vec<(String, V)> = Vec::new();
        let mut i: usize = 0;
        while i < n
            invariant
                i <= n,
                n == self.entries@.len(),
                entries@.len() == i,
                forall|j: int|
                    0 <= j < i ==> (#[trigger] entries@[j]).0@ == self.entries@[j].0@ && cloned(
                        self.entries@[j].1,
                        entries@[j].1,
                    ),
            decreases n - i,
        {
            let key = self.entries[i].0.clone();
            let value = self.entries[i].1.clone();
            entries.push((key, value));
            i += 1;
        }
        proof {
            assert forall|a: int, b: int| 0 <= a < b < n implies (#[trigger] model(
                entries@,
            )[a]).0 != (#[trigger] model(entries@)[b]).0 by {
                assert(self@[a].0 != self@[b].0);
            }
        }
        StringMap { entries }
    }
}

impl<V> StringMap<V> {
    /// What holds of every map: no key stands in it twice.
    #[verifier::type_invariant]
    pub open spec fn wf(&self) -> bool {
        distinct_keys(self@)
    }

    /// The empty map.
    pub fn new() -> (m: Self)
        ensures
            m@ == Seq::<(Seq<char>, V)>::empty(),
    {
        let entries: Vec<(String, V)> = Vec::new();
        assert(model(entries@) =~= Seq::<(Seq<char>, V)>::empty());
        StringMap { entries }
    }

    /// The number of entries.
    pub fn len(&self) -> (n: usize)
        ensures
            n == self@.len(),
            distinct_keys(self@),
    {
        proof {
            use_type_invariant(self);
        }
        self.entries.len()
    }

    /// Whether the map holds no entry.
    pub fn is_empty(&self) -> (e: bool)
        ensures
            e == (self@.len() == 0),
    {
        self.entries.len() == 0
    }

    /// The place of the entry under `key`, if there is one.
    fn find(&self, key: &str) -> (at: Option<usize>)
        ensures
            distinct_keys(self@),
            match at {
                Some(i) => i < self@.len() && self@[i as int].0 == key@ && has_key(self@, key@)
                    && index_of_key(self@, key@) == i,
                None => !has_key(self@, key@),
            },
    {
        proof {
            use_type_invariant(self);
        }
        let n = self.entries.len();
        let mut i: usize = 0;
        while i < n
            invariant
                i <= n,
                n == self@.len(),
                n == self.entries@.len(),
                distinct_keys(self@),
                forall|j: int| 0 <= j < i ==> (#[trigger] self@[j]).0 != key@,
            decreases n - i,
        {
            if str_eq(self.entries[i].0.as_str(), key) {
                proof {
                    assert(self@[i as int].0 == key@);
                    lemma_index_of_key(self@, i as int);
                }
                return Some(i);
            }
            i += 1;
        }
        None
    }

    /// Whether a value is stored under `key`.
    pub fn contains_key(&self, key: &str) -> (found: bool)
        ensures
            found == has_key(self@, key@),
    {
        self.find(key).is_some()
    }

    /// The value stored under `key`, if any.
    pub fn get(&self, key: &str) -> (value: Option<&V>)
        ensures
            distinct_keys(self@),
            match value {
                Some(v) => lookup(self@, key@) == Some(*v),
                None => lookup(self@, key@) is None,
            },
    {
        match self.find(key) {
            Some(i) => Some(&self.entries[i].1),
            None => None,
        }
    }

    /// Stores `value` under `key`. An entry with that key keeps its place and
    /// takes the new value; a new key goes to the end.
    pub fn insert(&mut self, key: String, value: V)
        ensures
            final(self)@ == upsert(old(self)@, key@, value),
            distinct_keys(final(self)@),
            lookup(final(self)@, key@) == Some(value),
    {
        let at = self.find(key.as_str());
        proof {
            lemma_upsert(self@, key@, value);
        }
        match at {
            Some(i) => {
                let mut entries: Vec<(String, V)> = Vec::new();
                assert(model(entries@) =~= Seq::<(Seq<char>, V)>::empty());
                core::mem::swap(&mut self.entries, &mut entries);
                entries.set(i, (key, value));
                assert(model(entries@) =~= upsert(old(self)@, key@, value));
                core::mem::swap(&mut self.entries, &mut entries);
            },
            None => {
                let mut entries: Vec<(String, V)> = Vec::new();
                assert(model(entries@) =~= Seq::<(Seq<char>, V)>::empty());
                core::mem::swap(&mut self.entries, &mut entries);
                entries.push((key, value));
                assert(model(entries@) =~= upsert(old(self)@, key@, value));
                core::mem::swap(&mut self.entries, &mut entries);
            },
        }
    }

    /// Takes the entry under `key` out and returns its value, if there is
    /// one; the other entries keep their order.
    pub fn remove(&mut self, key: &str) -> (value: Option<V>)
        ensures
            final(self)@ == without(old(self)@, key@),
            distinct_keys(final(self)@),
            value == lookup(old(self)@, key@),
            !has_key(final(self)@, key@),
    {
        let at = self.find(key);
        proof {
            lemma_without(self@, key@);
        }
        match at {
            Some(i) => {
                let mut entries: Vec<(String, V)> = Vec::new();
                assert(model(entries@) =~= Seq::<(Seq<char>, V)>::empty());
                core::mem::swap(&mut self.entries, &mut entries);
                let entry = entries.remove(i);
                assert(model(entries@) =~= without(old(self)@, key@));
                core::mem::swap(&mut self.entries, &mut entries);
                Some(entry.1)
            },
            None => None,
        }
    }

    /// The entries in their order, each key with its value.
    pub fn entries(&self) -> (list: Vec<(&String, &V)>)
        ensures
            distinct_keys(self@),
            list@.len() == self@.len(),
            forall|i: int|
                0 <= i < list@.len() ==> (#[trigger] list@[i]).0@ == self@[i].0 && *list@[i].1
                    == self@[i].1,
    {
        proof {
            use_type_invariant(self);
        }
        let n = self.entries.len();
        let mut list: Vec<(&String, &V)> = Vec::new();
        let mut i: usize = 0;
        while i < n
            invariant
                i <= n,
                n == self.entries@.len(),
                list@.len() == i,
                forall|j: int|
                    0 <= j < i ==> (#[trigger] list@[j]).0@ == self@[j].0 && *list@[j].1
                        == self@[j].1,
            decreases n - i,
        {
            list.push((&self.entries[i].0, &self.entries[i].1));
            i += 1;
        }
        list
    }

    /// The key of the entry at place `i`.
    pub(crate) fn key_at(&self, i: usize) -> (key: &String)
        requires
            i < self@.len(),
        ensures
            key@ == self@[i as int].0,
    {
        &self.entries[i].0
    }

    /// The value of the entry at place `i`.
    pub(crate) fn value_at(&self, i: usize) -> (value: &V)
        requires
            i < self@.len(),
        ensures
            *value == self@[i as int].1,
    {
        &self.entries[i].1
    }
}

} // verus!
