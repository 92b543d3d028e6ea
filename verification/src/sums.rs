//! Sums over the values of a finite map.

use crate::bins::lists_entries;
use vstd::prelude::*;

verus! {

/// The sum of `f` over the values of `m`. The order does not matter: see
/// [`lemma_sum_remove`].
pub open spec fn map_sum<K, V>(m: Map<K, V>, f: spec_fn(V) -> int) -> int
    decreases m.dom().len(),
    when m.dom().finite()
{
    if m.dom().len() == 0 {
        0
    } else {
        let k = m.dom().choose();
        f(m[k]) + map_sum(m.remove(k), f)
    }
}

/// The sum of `f` over the values of the first `n` entries.
pub open spec fn entries_sum<K, V>(entries: Seq<(K, &V)>, f: spec_fn(V) -> int, n: int) -> int
    decreases n,
{
    if n <= 0 {
        0
    } else {
        entries_sum(entries, f, n - 1) + f(*entries[n - 1].1)
    }
}

pub proof fn lemma_sum_empty<K, V>(f: spec_fn(V) -> int)
    ensures
        map_sum(Map::<K, V>::empty(), f) == 0,
{
}

/// Any key can be taken out of the sum.
pub proof fn lemma_sum_remove<K, V>(m: Map<K, V>, f: spec_fn(V) -> int, k: K)
    requires
        m.dom().finite(),
        m.contains_key(k),
    ensures
        map_sum(m, f) == f(m[k]) + map_sum(m.remove(k), f),
    decreases m.dom().len(),
{
    let c = m.dom().choose();
    assert(m.dom().contains(c)) by {
        assert(m.dom().contains(k));
    }
    if c != k {
        assert(m.remove(c).dom() =~= m.dom().remove(c));
        assert(m.remove(k).dom() =~= m.dom().remove(k));
        lemma_sum_remove(m.remove(c), f, k);
        lemma_sum_remove(m.remove(k), f, c);
        assert(m.remove(c).remove(k) =~= m.remove(k).remove(c));
    }
}

/// Binding a key to a value adds that value and takes away the one it replaces.
pub proof fn lemma_sum_insert<K, V>(m: Map<K, V>, f: spec_fn(V) -> int, k: K, v: V)
    requires
        m.dom().finite(),
    ensures
        m.insert(k, v).dom().finite(),
        map_sum(m.insert(k, v), f) == map_sum(m, f) + f(v) - (if m.contains_key(k) {
            f(m[k])
        } else {
            0
        }),
{
    assert(m.insert(k, v).dom() =~= m.dom().insert(k));
    lemma_sum_remove(m.insert(k, v), f, k);
    assert(m.insert(k, v).remove(k) =~= m.remove(k));
    if m.contains_key(k) {
        lemma_sum_remove(m, f, k);
    } else {
        assert(m.remove(k) =~= m);
    }
}

/// A list of all entries has the sum of the map.
pub proof fn lemma_entries_sum<K, V>(entries: Seq<(K, &V)>, m: Map<K, V>, f: spec_fn(V) -> int)
    requires
        lists_entries(entries, m),
    ensures
        m.dom().finite(),
        map_sum(m, f) == entries_sum(entries, f, entries.len() as int),
    decreases entries.len(),
{
    if entries.len() == 0 {
        assert(m.dom() =~= Set::empty()) by {
            assert forall|k: K| !m.dom().contains(k) by {
                if m.contains_key(k) {
                    let i = choose|i: int| 0 <= i < entries.len() && (#[trigger] entries[i]).0 == k;
                }
            }
        }
    } else {
        let n = entries.len() - 1;
        let k = entries[n].0;
        let rest = entries.drop_last();
        assert(m.contains_key(k) && m[k] == *entries[n].1);
        assert(lists_entries(rest, m.remove(k))) by {
            assert forall|j: int| 0 <= j < rest.len() implies m.remove(k).contains_key(
                (#[trigger] rest[j]).0,
            ) && m.remove(k)[rest[j].0] == *rest[j].1 by {
                assert(rest[j] == entries[j]);
                assert(entries[j].0 != entries[n].0);
            }
            assert forall|i: int, j: int| 0 <= i < j < rest.len() implies (#[trigger] rest[i]).0 != (
            #[trigger] rest[j]).0 by {
                assert(entries[i].0 != entries[j].0);
            }
            assert forall|q: K| #[trigger] m.remove(k).contains_key(q) implies exists|i: int|
                0 <= i < rest.len() && (#[trigger] rest[i]).0 == q by {
                assert(m.contains_key(q));
                let i = choose|i: int| 0 <= i < entries.len() && (#[trigger] entries[i]).0 == q;
                assert(rest[i].0 == q);
            }
        }
        lemma_entries_sum(rest, m.remove(k), f);
        assert(m.dom() =~= m.remove(k).dom().insert(k));
        lemma_sum_remove(m, f, k);
        lemma_entries_sum_prefix(rest, entries, f, n);
    }
}

proof fn lemma_entries_sum_prefix<K, V>(
    a: Seq<(K, &V)>,
    b: Seq<(K, &V)>,
    f: spec_fn(V) -> int,
    n: int,
)
    requires
        0 <= n <= a.len(),
        n <= b.len(),
        forall|i: int| 0 <= i < n ==> a[i] == b[i],
    ensures
        entries_sum(a, f, n) == entries_sum(b, f, n),
    decreases n,
{
    if n > 0 {
        lemma_entries_sum_prefix(a, b, f, n - 1);
    }
}

/// A sum splits into the sums over two complementary sets of keys.
pub proof fn lemma_sum_split<K, V>(m: Map<K, V>, f: spec_fn(V) -> int, keys: Set<K>)
    requires
        m.dom().finite(),
    ensures
        m.restrict(keys).dom().finite(),
        m.restrict(keys.complement()).dom().finite(),
        map_sum(m, f) == map_sum(m.restrict(keys), f) + map_sum(
            m.restrict(keys.complement()),
            f,
        ),
    decreases m.dom().len(),
{
    let a = m.restrict(keys);
    let b = m.restrict(keys.complement());
    assert(a.dom() =~= m.dom().intersect(keys));
    assert(b.dom() =~= m.dom().intersect(keys.complement()));
    if m.dom().len() == 0 {
        assert(m.dom() =~= Set::empty());
        assert(a =~= Map::<K, V>::empty());
        assert(b =~= Map::<K, V>::empty());
    } else {
        let k = m.dom().choose();
        let rest = m.remove(k);
        assert(rest.dom() =~= m.dom().remove(k));
        lemma_sum_split(rest, f, keys);
        lemma_sum_remove(m, f, k);
        if keys.contains(k) {
            lemma_sum_remove(a, f, k);
            assert(a.remove(k) =~= rest.restrict(keys));
            assert(b =~= rest.restrict(keys.complement()));
        } else {
            lemma_sum_remove(b, f, k);
            assert(b.remove(k) =~= rest.restrict(keys.complement()));
            assert(a =~= rest.restrict(keys));
        }
    }
}

} // verus!
