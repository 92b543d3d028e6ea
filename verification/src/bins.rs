//! Price bins in a hash map that uses the Fx hasher.
//!
//! `rustc_hash::FxHashMap` is the standard hash map with `FxBuildHasher` in
//! place of the default hasher. A lookup in such a map rests on the hasher
//! giving equal keys equal hashes, which is not proved here: the functions below
//! state what each map operation does, for integer keys.

use rustc_hash::FxHashMap;
use vstd::prelude::*;

verus! {

/// `rustc_hash::FxBuildHasher`, the stateless builder of Fx hashers.
#[verifier::external_type_specification]
#[verifier::external_body]
pub struct ExFxBuildHasher(rustc_hash::FxBuildHasher);

/// Whether `entries` lists what is in `m`: every key once, each with its value.
pub open spec fn lists_entries<K, V>(entries: Seq<(K, &V)>, m: Map<K, V>) -> bool {
    &&& forall|i: int, j: int|
        0 <= i < j < entries.len() ==> (#[trigger] entries[i]).0 != (#[trigger] entries[j]).0
    &&& forall|i: int|
        0 <= i < entries.len() ==> m.contains_key((#[trigger] entries[i]).0) && m[entries[i].0]
            == *entries[i].1
    &&& forall|k: K| #[trigger]
        m.contains_key(k) ==> exists|i: int|
            0 <= i < entries.len() && (#[trigger] entries[i]).0 == k
}

/// As [`lists_entries`], for keys that are borrowed from the map.
pub open spec fn lists_pairs<K, V>(pairs: Seq<(&K, &V)>, m: Map<K, V>) -> bool {
    &&& forall|i: int, j: int|
        0 <= i < j < pairs.len() ==> *(#[trigger] pairs[i]).0 != *(#[trigger] pairs[j]).0
    &&& forall|i: int|
        0 <= i < pairs.len() ==> m.contains_key(*(#[trigger] pairs[i]).0) && m[*pairs[i].0]
            == *pairs[i].1
    &&& forall|k: K| #[trigger]
        m.contains_key(k) ==> exists|i: int|
            0 <= i < pairs.len() && *(#[trigger] pairs[i]).0 == k
}

/// `HashMap::get` on an `FxHashMap`: the value at `key`, if the map has the key.
#[verifier::external_body]
pub(crate) fn bin_get<'a, V>(map: &'a FxHashMap<i64, V>, key: i64) -> (r: Option<&'a V>)
    ensures
        match r {
            Some(v) => map@.contains_key(key) && *v == map@[key],
            None => !map@.contains_key(key),
        },
{
    map.get(&key)
}

/// `HashMap::insert` on an `FxHashMap`: afterwards the map has `value` at `key`,
/// and at every other key what it had before.
#[verifier::external_body]
pub(crate) fn bin_insert<V>(map: &mut FxHashMap<i64, V>, key: i64, value: V)
    ensures
        final(map)@ == old(map)@.insert(key, value),
{
    map.insert(key, value);
}

/// `HashMap::iter` on an `FxHashMap`: the iterator gives every key once, with its
/// value, and then ends. The order is whatever the map walks them in, and nothing is
/// said of it.
#[verifier::external_body]
fn bin_iter<'a, V>(map: &'a FxHashMap<i64, V>) -> (r: std::collections::hash_map::Iter<'a, i64, V>)
    ensures
        vstd::std_specs::iter::IteratorSpec::decrease(&r) is Some,
        vstd::std_specs::iter::IteratorSpec::initial_value_relation(&r, &r),
        lists_pairs(vstd::std_specs::iter::IteratorSpec::remaining(&r), map@),
{
    map.iter()
}

/// Every key of the map once, with its value, in the order in which the map walks them.
pub(crate) fn bin_entries<'a, V>(map: &'a FxHashMap<i64, V>) -> (r: Vec<(i64, &'a V)>)
    ensures
        lists_entries(r@, map@),
{
    let mut r: Vec<(i64, &'a V)> = Vec::new();
    let iter = bin_iter(map);
    let ghost walk = iter;
    let ghost pairs = vstd::std_specs::iter::IteratorSpec::remaining(&walk);
    for (k, v) in it: iter
        invariant
            it.snapshot@ == walk,
            pairs == vstd::std_specs::iter::IteratorSpec::remaining(&walk),
            r@.len() == it.index(),
            forall|i: int|
                0 <= i < r@.len() ==> (#[trigger] r@[i]) == (*pairs[i].0, pairs[i].1),
    {
        r.push((*k, v));
    }
    proof {
        assert forall|k: i64| #[trigger] map@.contains_key(k) implies exists|i: int|
            0 <= i < r@.len() && (#[trigger] r@[i]).0 == k by {
            let i = choose|i: int| 0 <= i < pairs.len() && *(#[trigger] pairs[i]).0 == k;
            assert(r@[i].0 == k);
        }
        assert forall|i: int| 0 <= i < r@.len() implies map@.contains_key((#[trigger] r@[i]).0)
            && map@[r@[i].0] == *r@[i].1 by {
            assert(map@.contains_key(*pairs[i].0));
        }
        assert forall|i: int, j: int| 0 <= i < j < r@.len() implies (#[trigger] r@[i]).0 != (
        #[trigger] r@[j]).0 by {
            assert(*pairs[i].0 != *pairs[j].0);
        }
    }
    r
}

} // verus!
