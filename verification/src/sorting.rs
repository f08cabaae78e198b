//! Stable sorting by an integer key, as a specification: each entry in
//! turn goes after the entries before it whose key is at most its own.
//! Sorting a sequence this way gives the one ordering that a stable sort
//! (`sort_by` with a total order) produces.

use vstd::prelude::*;
use crate::effects::{first_where, lemma_first_where, lemma_first_where_bounds};

verus! {

/// Whether entry `i` of `s` has a key above that of `x`.
pub open spec fn keyed_after<T>(s: Seq<T>, i: int, x: T, key: spec_fn(T) -> int) -> bool {
    key(s[i]) > key(x)
}

/// Where `x` goes in `s`: after every entry whose key is at most its own,
/// before the first whose key is greater.
pub open spec fn keyed_slot<T>(s: Seq<T>, x: T, key: spec_fn(T) -> int) -> int {
    first_where(s.len() as int, |i: int| keyed_after(s, i, x, key))
}

/// Entries listed by ascending key.
pub open spec fn in_key_order<T>(s: Seq<T>, key: spec_fn(T) -> int) -> bool {
    forall|i: int, j: int| 0 <= i <= j < s.len() ==> key(s[i]) <= key(s[j])
}

/// `s` sorted by key, stably.
pub open spec fn sorted_by_key<T>(s: Seq<T>, key: spec_fn(T) -> int) -> Seq<T>
    decreases s.len(),
{
    if s.len() == 0 {
        s
    } else {
        let t = sorted_by_key(s.drop_last(), key);
        t.insert(keyed_slot(t, s.last(), key), s.last())
    }
}

/// Inserting an entry at its slot keeps a sequence in key order.
pub proof fn lemma_keyed_slot_keeps_order<T>(s: Seq<T>, x: T, key: spec_fn(T) -> int)
    requires
        in_key_order(s, key),
    ensures
        0 <= keyed_slot(s, x, key) <= s.len(),
        in_key_order(s.insert(keyed_slot(s, x, key), x), key),
{
    let p = |i: int| keyed_after(s, i, x, key);
    let k = keyed_slot(s, x, key);
    lemma_first_where_bounds(s.len() as int, p);
    let t = s.insert(k, x);
    assert forall|i: int, j: int| 0 <= i <= j < t.len() implies key(t[i]) <= key(t[j]) by {
        if i < k && j == k {
            assert(!p(i));
        } else if i == k && j > k {
            assert(p(k));
            assert(key(s[k]) <= key(s[j - 1]));
        }
    }
}

/// Sorting gives the same entries, in key order.
pub proof fn lemma_sorted_by_key<T>(s: Seq<T>, key: spec_fn(T) -> int)
    ensures
        in_key_order(sorted_by_key(s, key), key),
        sorted_by_key(s, key).len() == s.len(),
        sorted_by_key(s, key).to_multiset() == s.to_multiset(),
    decreases s.len(),
{
    broadcast use vstd::seq_lib::to_multiset_build;
    if s.len() > 0 {
        let t = sorted_by_key(s.drop_last(), key);
        lemma_sorted_by_key(s.drop_last(), key);
        lemma_keyed_slot_keeps_order(t, s.last(), key);
        vstd::seq_lib::to_multiset_insert(t, keyed_slot(t, s.last(), key), s.last());
        assert(s =~= s.drop_last().push(s.last()));
    }
}

/// A sequence already in key order is left as it is by sorting.
pub proof fn lemma_sorted_by_key_of_sorted<T>(s: Seq<T>, key: spec_fn(T) -> int)
    requires
        in_key_order(s, key),
    ensures
        sorted_by_key(s, key) == s,
    decreases s.len(),
{
    if s.len() > 0 {
        let d = s.drop_last();
        assert(in_key_order(d, key));
        lemma_sorted_by_key_of_sorted(d, key);
        let p = |i: int| keyed_after(d, i, s.last(), key);
        assert forall|j: int| 0 <= j < d.len() implies !#[trigger] p(j) by {
            assert(key(s[j]) <= key(s[s.len() - 1]));
        }
        lemma_first_where(d.len() as int, p, d.len() as int);
        assert(d.insert(d.len() as int, s.last()) =~= s);
    }
}

/// Adding an entry to a sorted sequence and sorting inserts the entry at
/// its slot and leaves the others in place.
pub proof fn lemma_sorted_push<T>(s: Seq<T>, x: T, key: spec_fn(T) -> int)
    requires
        in_key_order(s, key),
    ensures
        sorted_by_key(s.push(x), key) == s.insert(keyed_slot(s, x, key), x),
{
    lemma_sorted_by_key_of_sorted(s, key);
    assert(s.push(x).drop_last() =~= s);
}

} // verus!
