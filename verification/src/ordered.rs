//! Ordered maps, read in key order.

use crate::bins::lists_entries;
use std::collections::BTreeMap;
use vstd::prelude::*;

verus! {

broadcast use {vstd::std_specs::btree::group_btree_axioms, vstd::laws_cmp::group_laws_cmp};

/// Whether the keys of `entries` increase from each entry to the next.
pub open spec fn increasing_times<V>(entries: Seq<(u64, &V)>) -> bool {
    forall|i: int, j: int|
        0 <= i < j < entries.len() ==> (#[trigger] entries[i]).0 < (#[trigger] entries[j]).0
}

/// Whether the keys of `entries` increase from each entry to the next.
pub open spec fn increasing_prices<V>(entries: Seq<(i64, &V)>) -> bool {
    forall|i: int, j: int|
        0 <= i < j < entries.len() ==> (#[trigger] entries[i]).0 < (#[trigger] entries[j]).0
}

fn collect_entries<'a, K: Ord + Copy, V>(map: &'a BTreeMap<K, V>) -> (r: Vec<(K, &'a V)>)
    requires
        vstd::laws_cmp::obeys_cmp::<K>(),
    ensures
        lists_entries(r@, map@),
        forall|i: int, j: int|
            0 <= i < j < r@.len() ==> vstd::std_specs::cmp::OrdSpec::cmp_spec(
                &(#[trigger] r@[i]).0,
                &(#[trigger] r@[j]).0,
            ) is Less,
{
    let mut r: Vec<(K, &'a V)> = Vec::new();
    let iter = map.iter();
    let ghost walk = iter;
    for (k, v) in it: iter
        invariant
            it.snapshot@ == walk,
            r@.len() == it.index(),
            forall|i: int|
                0 <= i < r@.len() ==> (#[trigger] r@[i]) == (*vstd::std_specs::iter::IteratorSpec::remaining(&walk)[i].0, vstd::std_specs::iter::IteratorSpec::remaining(&walk)[i].1),
    {
        r.push((*k, v));
    }
    proof {
        let keys = vstd::std_specs::iter::IteratorSpec::remaining(&walk).map_values(|kv: (&K, &V)| *kv.0);
        assert(vstd::std_specs::btree::increasing_seq(keys));
        assert forall|i: int, j: int|
            0 <= i < j < r@.len() implies vstd::std_specs::cmp::OrdSpec::cmp_spec(
            &(#[trigger] r@[i]).0,
            &(#[trigger] r@[j]).0,
        ) is Less by {
            assert(vstd::std_specs::cmp::OrdSpec::cmp_spec(&keys[i], &keys[j]) is Less);
        }
        assert forall|k: K| #[trigger] map@.contains_key(k) implies exists|i: int|
            0 <= i < r@.len() && (#[trigger] r@[i]).0 == k by {
            assert(vstd::std_specs::iter::IteratorSpec::remaining(&walk).contains((&k, &map@[k])));
            let i = choose|i: int| 0 <= i < vstd::std_specs::iter::IteratorSpec::remaining(&walk).len() && vstd::std_specs::iter::IteratorSpec::remaining(&walk)[i] == (&k, &map@[k]);
            assert(r@[i].0 == k);
        }
        assert forall|i: int| 0 <= i < r@.len() implies map@.contains_key((#[trigger] r@[i]).0)
            && map@[r@[i].0] == *r@[i].1 by {
            assert(map@.contains_key(*vstd::std_specs::iter::IteratorSpec::remaining(&walk)[i].0));
        }
        assert forall|i: int, j: int| 0 <= i < j < r@.len() implies (#[trigger] r@[i]).0 != (
        #[trigger] r@[j]).0 by {
            assert(vstd::std_specs::iter::IteratorSpec::remaining(&walk)[i] != vstd::std_specs::iter::IteratorSpec::remaining(&walk)[j]);
            assert(map@[*vstd::std_specs::iter::IteratorSpec::remaining(&walk)[i].0] == *vstd::std_specs::iter::IteratorSpec::remaining(&walk)[i].1);
            assert(map@[*vstd::std_specs::iter::IteratorSpec::remaining(&walk)[j].0] == *vstd::std_specs::iter::IteratorSpec::remaining(&walk)[j].1);
        }
    }
    r
}

/// The entries of a map that is keyed by time or by bar number, by increasing key.
pub fn entries_by_time<'a, V>(map: &'a BTreeMap<u64, V>) -> (r: Vec<(u64, &'a V)>)
    ensures
        increasing_times(r@),
        lists_entries(r@, map@),
{
    collect_entries(map)
}

/// The entries of a map that is keyed by price, by increasing price.
pub fn entries_by_price<'a, V>(map: &'a BTreeMap<i64, V>) -> (r: Vec<(i64, &'a V)>)
    ensures
        increasing_prices(r@),
        lists_entries(r@, map@),
{
    collect_entries(map)
}

/// The lowest price that the map holds. None if it is empty.
pub fn lowest_price<V>(map: &BTreeMap<i64, V>) -> (r: Option<i64>)
    ensures
        match r {
            Some(p) => map@.contains_key(p) && forall|k: i64| #[trigger]
                map@.contains_key(k) ==> p <= k,
            None => map@ == Map::<i64, V>::empty(),
        },
{
    let entries = entries_by_price(map);
    if entries.len() == 0 {
        assert(map@ =~= Map::<i64, V>::empty());
        return None;
    }
    assert(map@.contains_key(entries@[0].0));
    Some(entries[0].0)
}

/// The highest price that the map holds. None if it is empty.
pub fn highest_price<V>(map: &BTreeMap<i64, V>) -> (r: Option<i64>)
    ensures
        match r {
            Some(p) => map@.contains_key(p) && forall|k: i64| #[trigger]
                map@.contains_key(k) ==> k <= p,
            None => map@ == Map::<i64, V>::empty(),
        },
{
    let entries = entries_by_price(map);
    if entries.len() == 0 {
        assert(map@ =~= Map::<i64, V>::empty());
        return None;
    }
    assert(map@.contains_key(entries@[entries.len() - 1].0));
    Some(entries[entries.len() - 1].0)
}

/// Keys are bounded, so one of them is the highest.
pub proof fn lemma_highest_key<V>(m: Map<i64, V>, key: i64) -> (r: i64)
    requires
        m.contains_key(key),
    ensures
        m.contains_key(r),
        forall|k: i64| #[trigger] m.contains_key(k) ==> k <= r,
    decreases i64::MAX - key,
{
    if exists|k: i64| #[trigger] m.contains_key(k) && k > key {
        lemma_highest_key(m, choose|k: i64| #[trigger] m.contains_key(k) && k > key)
    } else {
        key
    }
}

/// Keys are bounded, so one of them is the lowest.
pub proof fn lemma_lowest_key<V>(m: Map<i64, V>, key: i64) -> (r: i64)
    requires
        m.contains_key(key),
    ensures
        m.contains_key(r),
        forall|k: i64| #[trigger] m.contains_key(k) ==> r <= k,
    decreases key - i64::MIN,
{
    if exists|k: i64| #[trigger] m.contains_key(k) && k < key {
        lemma_lowest_key(m, choose|k: i64| #[trigger] m.contains_key(k) && k < key)
    } else {
        key
    }
}

} // verus!
