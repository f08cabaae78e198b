//! Values stored under text keys: a key maps to one value, a new key goes
//! at the end, and storing under a present key replaces its value. Walking
//! the values goes in storage order.

use vstd::prelude::*;
use crate::effects::{first_where, lemma_first_where, lemma_first_where_bounds};
use crate::text::str_equals;

verus! {

/// Keyed values as the contracts see them: the keys and the values,
/// position by position.
pub struct KeyedView<T> {
    pub keys: Seq<Seq<char>>,
    pub values: Seq<T>,
}

/// Whether key `i` is `key`.
pub open spec fn is_key_at(keys: Seq<Seq<char>>, i: int, key: Seq<char>) -> bool {
    keys[i] == key
}

/// The position of `key` (the number of keys when it is absent).
pub open spec fn key_index(keys: Seq<Seq<char>>, key: Seq<char>) -> int {
    first_where(keys.len() as int, |i: int| is_key_at(keys, i, key))
}

/// No key occurs twice.
pub open spec fn distinct_keys(keys: Seq<Seq<char>>) -> bool {
    forall|i: int, j: int| 0 <= i < j < keys.len() ==> keys[i] != keys[j]
}

/// Whether there are as many values as keys.
pub open spec fn well_paired<T>(v: KeyedView<T>) -> bool {
    v.keys.len() == v.values.len()
}

/// The value stored under `key`, if any.
pub open spec fn lookup<T>(v: KeyedView<T>, key: Seq<char>) -> Option<T> {
    let i = key_index(v.keys, key);
    if i < v.keys.len() {
        Some(v.values[i])
    } else {
        None
    }
}

/// The store after storing `x` under `key`: the value under the key
/// replaced, or the pair added at the end.
pub open spec fn after_insert<T>(v: KeyedView<T>, key: Seq<char>, x: T) -> KeyedView<T> {
    let i = key_index(v.keys, key);
    if i < v.keys.len() {
        KeyedView { keys: v.keys, values: v.values.update(i, x) }
    } else {
        KeyedView { keys: v.keys.push(key), values: v.values.push(x) }
    }
}

/// The store after removing the pair under `key`, if there is one.
pub open spec fn after_remove<T>(v: KeyedView<T>, key: Seq<char>) -> KeyedView<T> {
    let i = key_index(v.keys, key);
    if i < v.keys.len() {
        KeyedView { keys: v.keys.remove(i), values: v.values.remove(i) }
    } else {
        v
    }
}

/// Facts about `key_index`: it is the first position of the key, or the
/// number of keys when the key is absent.
pub proof fn lemma_key_index(keys: Seq<Seq<char>>, key: Seq<char>)
    ensures
        0 <= key_index(keys, key) <= keys.len(),
        key_index(keys, key) < keys.len() ==> keys[key_index(keys, key)] == key,
        forall|j: int| 0 <= j < key_index(keys, key) ==> keys[j] != key,
{
    let p = |i: int| is_key_at(keys, i, key);
    lemma_first_where_bounds(keys.len() as int, p);
    assert forall|j: int| 0 <= j < key_index(keys, key) implies keys[j] != key by {
        assert(!p(j));
    }
}

/// Reading a key after storing a value under it gives that value, and the
/// other keys read as before.
pub proof fn lemma_insert_then_lookup<T>(v: KeyedView<T>, key: Seq<char>, x: T, other: Seq<char>)
    requires
        well_paired(v),
    ensures
        well_paired(after_insert(v, key, x)),
        lookup(after_insert(v, key, x), key) == Some(x),
        other != key ==> lookup(after_insert(v, key, x), other) == lookup(v, other),
{
    let n = v.keys.len() as int;
    lemma_key_index(v.keys, key);
    lemma_key_index(v.keys, other);
    let w = after_insert(v, key, x);
    lemma_key_index(w.keys, key);
    lemma_key_index(w.keys, other);
    if key_index(v.keys, key) == n {
        let keys = w.keys;
        let q = |j: int| is_key_at(keys, j, key);
        assert forall|j: int| 0 <= j < n implies !#[trigger] q(j) by {}
        lemma_first_where(n + 1, q, n);
        if other != key {
            let k = key_index(v.keys, other);
            let q2 = |j: int| is_key_at(keys, j, other);
            assert forall|j: int| 0 <= j < k implies !#[trigger] q2(j) by {}
            if k < n {
                lemma_first_where(n + 1, q2, k);
            } else {
                lemma_first_where(n + 1, q2, n + 1);
            }
        }
    }
}

/// With distinct keys, after the pair under a key is removed the key
/// reads as absent, and the other keys read as before.
pub proof fn lemma_remove_then_lookup<T>(v: KeyedView<T>, key: Seq<char>, other: Seq<char>)
    requires
        well_paired(v),
        distinct_keys(v.keys),
    ensures
        well_paired(after_remove(v, key)),
        distinct_keys(after_remove(v, key).keys),
        lookup(after_remove(v, key), key) is None,
        other != key ==> lookup(after_remove(v, key), other) == lookup(v, other),
{
    let n = v.keys.len() as int;
    lemma_key_index(v.keys, key);
    lemma_key_index(v.keys, other);
    let i = key_index(v.keys, key);
    if i < n {
        let rest = v.keys.remove(i);
        let vals = v.values.remove(i);
        assert forall|a: int, b: int| 0 <= a < b < rest.len() implies rest[a] != rest[b] by {
            let a1 = if a < i { a } else { a + 1 };
            let b1 = if b < i { b } else { b + 1 };
            assert(rest[a] == v.keys[a1] && rest[b] == v.keys[b1]);
        }
        let q = |j: int| is_key_at(rest, j, key);
        assert forall|j: int| 0 <= j < n - 1 implies !#[trigger] q(j) by {
            let k = if j < i { j } else { j + 1 };
            assert(rest[j] == v.keys[k]);
        }
        lemma_first_where(n - 1, q, n - 1);
        if other != key {
            let k = key_index(v.keys, other);
            let q2 = |j: int| is_key_at(rest, j, other);
            if k < n {
                let k1 = if k < i { k } else { k - 1 };
                assert forall|j: int| 0 <= j < k1 implies !#[trigger] q2(j) by {
                    let jj = if j < i { j } else { j + 1 };
                    assert(rest[j] == v.keys[jj]);
                }
                assert(rest[k1] == v.keys[k]);
                lemma_first_where(n - 1, q2, k1);
                assert(vals[k1] == v.values[k]);
            } else {
                assert forall|j: int| 0 <= j < n - 1 implies !#[trigger] q2(j) by {
                    let jj = if j < i { j } else { j + 1 };
                    assert(rest[j] == v.keys[jj]);
                }
                lemma_first_where(n - 1, q2, n - 1);
            }
        }
    }
}

/// Storing keeps keys distinct.
pub proof fn lemma_insert_keeps_distinct<T>(v: KeyedView<T>, key: Seq<char>, x: T)
    requires
        distinct_keys(v.keys),
    ensures
        distinct_keys(after_insert(v, key, x).keys),
{
    lemma_key_index(v.keys, key);
    if key_index(v.keys, key) == v.keys.len() {
        let t = v.keys.push(key);
        assert forall|i: int, j: int| 0 <= i < j < t.len() implies t[i] != t[j] by {
            if j == v.keys.len() {
                assert(t[i] == v.keys[i]);
            } else {
                assert(t[i] == v.keys[i] && t[j] == v.keys[j]);
            }
        }
    }
}

/// Values stored under text keys.
#[derive(Debug, Clone)]
pub struct KeyedStore<T> {
    entries: Vec<(String, T)>,
}

impl<T> View for KeyedStore<T> {
    type V = KeyedView<T>;

    closed spec fn view(&self) -> KeyedView<T> {
        KeyedView {
            keys: Seq::new(self.entries@.len(), |i: int| self.entries@[i].0@),
            values: Seq::new(self.entries@.len(), |i: int| self.entries@[i].1),
        }
    }
}

/// The values that references point at.
pub open spec fn pointed<T>(refs: Seq<&T>) -> Seq<T> {
    Seq::new(refs.len(), |i: int| *refs[i])
}

impl<T> KeyedStore<T> {

    /// An empty store.
    pub fn new() -> (r: Self)
        ensures
            r@.keys.len() == 0,
            r@.values.len() == 0,
    {
        let r = KeyedStore { entries: Vec::new() };
        assert(r@.keys =~= Seq::<Seq<char>>::empty());
        r
    }

    /// The position of `key`, if present.
    fn find(&self, key: &str) -> (r: Option<usize>)
        ensures
            r is Some <==> key_index(self@.keys, key@) < self@.keys.len(),
            r matches Some(i) ==> i == key_index(self@.keys, key@),
            self@.keys.len() == self.entries@.len(),
    {
        let ghost keys = self@.keys;
        let ghost p = |i: int| is_key_at(keys, i, key@);
        let mut i: usize = 0;
        while i < self.entries.len()
            invariant
                keys == self@.keys,
                keys.len() == self.entries@.len(),
                p == (|i: int| is_key_at(keys, i, key@)),
                i <= self.entries@.len(),
                forall|j: int| 0 <= j < i ==> !#[trigger] p(j),
            decreases self.entries@.len() - i,
        {
            if str_equals(self.entries[i].0.as_str(), key) {
                proof { lemma_first_where(keys.len() as int, p, i as int); }
                return Some(i);
            }
            i = i + 1;
        }
        proof { lemma_first_where(keys.len() as int, p, i as int); }
        None
    }

    /// Stores `value` under `key` and returns the value it replaces, if
    /// any.
    pub fn insert(&mut self, key: &str, value: T) -> (r: Option<T>)
        ensures
            final(self)@ == after_insert(old(self)@, key@, value),
            r == lookup(old(self)@, key@),
            distinct_keys(old(self)@.keys) ==> distinct_keys(final(self)@.keys),
    {
        let ghost before = self@;
        proof {
            if distinct_keys(before.keys) {
                lemma_insert_keeps_distinct(before, key@, value);
            }
        }
        match self.find(key) {
            Some(i) => {
                let (k, previous) = self.entries.remove(i);
                self.entries.insert(i, (k, value));
                assert(self@.keys =~= before.keys);
                assert(self@.values =~= before.values.update(i as int, value));
                Some(previous)
            },
            None => {
                self.entries.push((String::from_str(key), value));
                assert(self@.keys =~= before.keys.push(key@));
                assert(self@.values =~= before.values.push(value));
                None
            },
        }
    }

    /// The value stored under `key`, if any.
    pub fn get(&self, key: &str) -> (r: Option<&T>)
        ensures
            r is Some <==> lookup(self@, key@) is Some,
            r matches Some(x) ==> lookup(self@, key@) == Some(*x),
    {
        match self.find(key) {
            Some(i) => Some(&self.entries[i].1),
            None => None,
        }
    }

    /// The value stored under `key`, to be changed in place, if any.
    pub fn get_mut(&mut self, key: &str) -> (r: Option<&mut T>)
        ensures
            ({
                let i = key_index(old(self)@.keys, key@);
                &&& r is Some <==> i < old(self)@.keys.len()
                &&& r is None ==> final(self)@ == old(self)@
                &&& r matches Some(x) ==> *x == old(self)@.values[i] && final(self)@.keys == old(self)@.keys
                    && final(self)@.values == old(self)@.values.update(i, *final(x))
            }),
    {
        match self.find(key) {
            Some(i) => Some(&mut self.entries[i].1),
            None => None,
        }
    }

    /// Removes the pair under `key` and returns its value, if any.
    pub fn remove(&mut self, key: &str) -> (r: Option<T>)
        ensures
            final(self)@ == after_remove(old(self)@, key@),
            r == lookup(old(self)@, key@),
    {
        let ghost before = self@;
        match self.find(key) {
            Some(i) => {
                let (_, value) = self.entries.remove(i);
                assert(self@.keys =~= before.keys.remove(i as int));
                assert(self@.values =~= before.values.remove(i as int));
                Some(value)
            },
            None => None,
        }
    }

    /// The values, in storage order.
    pub fn values(&self) -> (r: Vec<&T>)
        ensures
            pointed(r@) == self@.values,
            well_paired(self@),
    {
        let mut out: Vec<&T> = Vec::new();
        let mut i: usize = 0;
        while i < self.entries.len()
            invariant
                i <= self.entries@.len(),
                pointed(out@) == self@.values.take(i as int),
            decreases self.entries@.len() - i,
        {
            let ghost before = pointed(out@);
            out.push(&self.entries[i].1);
            assert(self@.values[i as int] == self.entries@[i as int].1);
            assert(pointed(out@) =~= before.push(self.entries@[i as int].1));
            assert(pointed(out@) =~= self@.values.take(i as int + 1));
            i = i + 1;
        }
        assert(self@.values.take(i as int) =~= self@.values);
        out
    }

    /// A store with the same keys, in the same order, holding `values`
    /// position by position.
    pub fn with_values<U>(&self, values: Vec<U>) -> (r: KeyedStore<U>)
        requires
            values@.len() == self@.keys.len(),
        ensures
            r@.keys == self@.keys,
            r@.values == values@,
    {
        let mut entries: Vec<(String, U)> = Vec::new();
        let mut rest = values;
        let ghost all = rest@;
        let n = self.entries.len();
        let mut i: usize = 0;
        while rest.len() > 0
            invariant
                n == self.entries@.len(),
                i + rest@.len() == n,
                all.len() == self.entries@.len(),
                rest@ == all.subrange(i as int, all.len() as int),
                entries@.len() == i,
                forall|j: int| 0 <= j < i ==> #[trigger] entries@[j].0@ == self.entries@[j].0@,
                forall|j: int| 0 <= j < i ==> #[trigger] entries@[j].1 == all[j],
            decreases rest@.len(),
        {
            let v = rest.remove(0);
            assert(rest@ =~= all.subrange(i as int + 1, all.len() as int));
            entries.push((self.entries[i].0.clone(), v));
            i = i + 1;
        }
        let r = KeyedStore { entries };
        assert(r@.keys =~= self@.keys);
        assert(r@.values =~= all);
        r
    }

    /// The keys, in storage order.
    pub fn keys(&self) -> (r: Vec<String>)
        ensures
            r@.len() == self@.keys.len(),
            forall|i: int| 0 <= i < r@.len() ==> #[trigger] r@[i]@ == self@.keys[i],
    {
        let mut out: Vec<String> = Vec::new();
        let mut i: usize = 0;
        while i < self.entries.len()
            invariant
                i <= self.entries@.len(),
                out@.len() == i,
                forall|j: int| 0 <= j < i ==> #[trigger] out@[j]@ == self@.keys[j],
            decreases self.entries@.len() - i,
        {
            out.push(self.entries[i].0.clone());
            i = i + 1;
        }
        out
    }

    /// The number of stored pairs.
    pub fn len(&self) -> (r: usize)
        ensures
            r == self@.keys.len(),
    {
        self.entries.len()
    }
}

} // verus!
