//! Order books, raw and grouped by price bin.

use crate::bins::lists_entries;
use crate::ordered::{
    entries_by_price, highest_price, lemma_highest_key, lemma_lowest_key, lowest_price,
};
use crate::sums::{lemma_sum_empty, lemma_sum_insert, lemma_sum_split, map_sum};
use crate::units::{fits, side_multiple, Price, PriceStep, Qty};
use std::collections::BTreeMap;
use vstd::prelude::*;

verus! {

broadcast use {vstd::std_specs::btree::group_btree_axioms, vstd::laws_cmp::group_laws_cmp};

/// A side of the order book.
#[derive(Clone, Copy, Debug, PartialEq, Eq, Structural)]
pub enum Side {
    Bid,
    Ask,
}

/// The order book as the market sends it: the quantity at each price, in atomic
/// units.
pub struct Depth {
    pub bids: BTreeMap<i64, Qty>,
    pub asks: BTreeMap<i64, Qty>,
}

pub open spec fn qty_units() -> spec_fn(Qty) -> int {
    |q: Qty| q.units as int
}

/// The bin that a price level of the given side belongs to.
pub open spec fn level_bin(side: Side, price: i64, step: PriceStep) -> int {
    side_multiple(side is Bid, price as int, step.units as int)
}

/// The price levels that belong to one bin.
pub open spec fn levels_in<V>(m: Map<i64, V>, side: Side, step: PriceStep, bin: int) -> Map<i64, V> {
    m.restrict(Set::new(|k: i64| level_bin(side, k, step) == bin))
}

/// The quantity at all price levels of one bin together.
pub open spec fn bin_qty(m: Map<i64, Qty>, side: Side, step: PriceStep, bin: int) -> int {
    map_sum(levels_in(m, side, step, bin), qty_units())
}

/// Whether every price level has a bin, and every bin can hold its quantity.
pub open spec fn can_regroup(m: Map<i64, Qty>, side: Side, step: PriceStep) -> bool {
    forall|k: i64| #[trigger]
        m.contains_key(k) ==> fits(level_bin(side, k, step)) && fits(
            bin_qty(m, side, step, level_bin(side, k, step)),
        )
}

/// Whether `orders` has a bin for every price level of `m`, and nothing else, each
/// with the quantity at its price levels together.
pub open spec fn is_regrouped(
    orders: Map<i64, Qty>,
    m: Map<i64, Qty>,
    side: Side,
    step: PriceStep,
) -> bool {
    &&& forall|k: i64| #[trigger]
        m.contains_key(k) ==> orders.contains_key(level_bin(side, k, step) as i64)
    &&& forall|b: i64| #[trigger]
        orders.contains_key(b) ==> {
            &&& exists|k: i64| #[trigger] m.contains_key(k) && level_bin(side, k, step) == b
            &&& orders[b].units == bin_qty(m, side, step, b as int)
        }
}

/// As [`is_regrouped`], with sums that need not fit a quantity.
spec fn is_summed(
    sums: Map<i64, i128>,
    m: Map<i64, Qty>,
    side: Side,
    step: PriceStep,
) -> bool {
    &&& forall|k: i64| #[trigger]
        m.contains_key(k) ==> sums.contains_key(level_bin(side, k, step) as i64)
    &&& forall|b: i64| #[trigger]
        sums.contains_key(b) ==> {
            &&& exists|k: i64| #[trigger] m.contains_key(k) && level_bin(side, k, step) == b
            &&& sums[b] == bin_qty(m, side, step, b as int)
        }
}

/// The map that the first `n` entries make.
spec fn first_entries(entries: Seq<(i64, &Qty)>, n: int) -> Map<i64, Qty>
    decreases n,
{
    if n <= 0 {
        Map::empty()
    } else {
        first_entries(entries, n - 1).insert(entries[n - 1].0, *entries[n - 1].1)
    }
}

proof fn lemma_first_entries(entries: Seq<(i64, &Qty)>, n: int)
    requires
        0 <= n <= entries.len(),
        forall|i: int, j: int|
            0 <= i < j < entries.len() ==> (#[trigger] entries[i]).0 != (#[trigger] entries[j]).0,
    ensures
        first_entries(entries, n).dom().finite(),
        forall|k: i64| #[trigger]
            first_entries(entries, n).contains_key(k) <==> exists|i: int|
                0 <= i < n && (#[trigger] entries[i]).0 == k,
        forall|i: int|
            0 <= i < n ==> first_entries(entries, n)[(#[trigger] entries[i]).0] == *entries[i].1,
    decreases n,
{
    if n > 0 {
        lemma_first_entries(entries, n - 1);
        let m = first_entries(entries, n - 1);
        let all = first_entries(entries, n);
        assert(all.dom() =~= m.dom().insert(entries[n - 1].0));
        assert forall|k: i64| #[trigger] all.contains_key(k) implies exists|i: int|
            0 <= i < n && (#[trigger] entries[i]).0 == k by {
            if k == entries[n - 1].0 {
            } else {
                assert(m.contains_key(k));
            }
        }
        assert forall|k: i64|
            (exists|i: int| 0 <= i < n && (#[trigger] entries[i]).0 == k) implies #[trigger] all.contains_key(
            k,
        ) by {
            let i = choose|i: int| 0 <= i < n && (#[trigger] entries[i]).0 == k;
            if i < n - 1 {
                assert(m.contains_key(k));
            }
        }
        assert forall|i: int| 0 <= i < n implies all[(#[trigger] entries[i]).0] == *entries[i].1 by {
            if i < n - 1 {
                assert(entries[i].0 != entries[n - 1].0);
            }
        }
    }
}

/// One more price level adds its quantity to the sum of its bin.
proof fn lemma_sum_level(
    sums: Map<i64, i128>,
    m: Map<i64, Qty>,
    side: Side,
    step: PriceStep,
    price: i64,
    qty: Qty,
    sum: i128,
)
    requires
        m.dom().finite(),
        is_summed(sums, m, side, step),
        forall|k: i64| #[trigger] m.contains_key(k) ==> fits(level_bin(side, k, step)),
        !m.contains_key(price),
        fits(level_bin(side, price, step)),
        ({
            let b = level_bin(side, price, step) as i64;
            sum == qty.units + (if sums.contains_key(b) {
                sums[b] as int
            } else {
                0
            })
        }),
    ensures
        is_summed(
            sums.insert(level_bin(side, price, step) as i64, sum),
            m.insert(price, qty),
            side,
            step,
        ),
{
    let bin = level_bin(side, price, step);
    let b = bin as i64;
    let next = m.insert(price, qty);
    let result = sums.insert(b, sum);
    let here = levels_in(m, side, step, bin);
    assert(here.dom() =~= m.dom().intersect(
        Set::new(|k: i64| level_bin(side, k, step) == bin),
    ));
    assert(levels_in(next, side, step, bin) =~= here.insert(price, qty));
    lemma_sum_insert(here, qty_units(), price, qty);
    if !sums.contains_key(b) {
        assert(here =~= Map::<i64, Qty>::empty()) by {
            assert forall|k: i64| !here.contains_key(k) by {
                if here.contains_key(k) {
                    assert(m.contains_key(k));
                    assert(level_bin(side, k, step) == bin);
                }
            }
        }
        lemma_sum_empty::<i64, Qty>(qty_units());
    }
    assert forall|c: i64| #[trigger] result.contains_key(c) implies (exists|k: i64| #[trigger]
        next.contains_key(k) && level_bin(side, k, step) == c) && result[c] == bin_qty(
        next,
        side,
        step,
        c as int,
    ) by {
        if c == b {
            assert(next.contains_key(price));
        } else {
            assert(sums.contains_key(c));
            let k = choose|k: i64| #[trigger] m.contains_key(k) && level_bin(side, k, step) == c;
            assert(next.contains_key(k));
            assert(levels_in(next, side, step, c as int) =~= levels_in(m, side, step, c as int));
        }
    }
    assert forall|k: i64| #[trigger] next.contains_key(k) implies result.contains_key(
        level_bin(side, k, step) as i64,
    ) by {
        if k != price {
            assert(m.contains_key(k));
        }
    }
}

fn sum_levels(raw: &BTreeMap<i64, Qty>, side: Side, step: PriceStep) -> (r: Option<
    BTreeMap<i64, i128>,
>)
    requires
        step.wf(),
    ensures
        raw@.dom().finite(),
        match r {
            Some(sums) => {
                &&& is_summed(sums@, raw@, side, step)
                &&& forall|k: i64| #[trigger]
                    raw@.contains_key(k) ==> fits(level_bin(side, k, step))
            },
            None => exists|k: i64| #[trigger]
                raw@.contains_key(k) && !fits(level_bin(side, k, step)),
        },
{
    let entries = entries_by_price(raw);
    let mut sums: BTreeMap<i64, i128> = BTreeMap::new();
    let mut i: usize = 0;
    proof {
        lemma_first_entries(entries@, entries@.len() as int);
        assert(first_entries(entries@, entries@.len() as int) =~= raw@);
    }
    while i < entries.len()
        invariant
            i <= entries.len(),
            step.wf(),
            lists_entries(entries@, raw@),
            is_summed(sums@, first_entries(entries@, i as int), side, step),
            forall|k: i64| #[trigger]
                first_entries(entries@, i as int).contains_key(k) ==> fits(
                    level_bin(side, k, step),
                ),
            forall|b: i64| #[trigger]
                sums@.contains_key(b) ==> -0x8000_0000_0000_0000 * i <= sums@[b]
                    <= 0x8000_0000_0000_0000 * i,
        decreases entries.len() - i,
    {
        let price = Price { units: entries[i].0 };
        let qty = *entries[i].1;
        let ghost m = first_entries(entries@, i as int);
        proof {
            lemma_first_entries(entries@, i as int);
            assert(raw@.contains_key(entries@[i as int].0));
            assert(!m.contains_key(price.units)) by {
                if m.contains_key(price.units) {
                    let j = choose|j: int|
                        0 <= j < i && (#[trigger] entries@[j]).0 == price.units;
                    assert(entries@[j].0 != entries@[i as int].0);
                }
            }
        }
        let bin = match price.checked_side_step(matches!(side, Side::Bid), step) {
            Some(bin) => bin.units,
            None => {
                return None;
            },
        };
        let before: i128 = match sums.get(&bin) {
            Some(sum) => *sum,
            None => 0,
        };
        let sum: i128 = before + qty.units as i128;
        proof {
            lemma_sum_level(sums@, m, side, step, price.units, qty, sum);
        }
        sums.insert(bin, sum);
        i = i + 1;
    }
    Some(sums)
}

/// Whether every price level has a bin, and every bin can hold its quantity.
pub fn check_regroup(raw: &BTreeMap<i64, Qty>, side: Side, step: PriceStep) -> (r: bool)
    requires
        step.wf(),
    ensures
        r == can_regroup(raw@, side, step),
{
    let sums = match sum_levels(raw, side, step) {
        Some(sums) => sums,
        None => {
            return false;
        },
    };
    let entries = entries_by_price(&sums);
    let mut i: usize = 0;
    while i < entries.len()
        invariant
            i <= entries.len(),
            lists_entries(entries@, sums@),
            is_summed(sums@, raw@, side, step),
            forall|j: int| 0 <= j < i ==> fits(*(#[trigger] entries@[j]).1 as int),
        decreases entries.len() - i,
    {
        let sum = *entries[i].1;
        if sum < i64::MIN as i128 || sum > i64::MAX as i128 {
            proof {
                let b = entries@[i as int].0;
                assert(sums@.contains_key(b));
                let k = choose|k: i64| #[trigger]
                    raw@.contains_key(k) && level_bin(side, k, step) == b;
                assert(raw@.contains_key(k));
            }
            return false;
        }
        i = i + 1;
    }
    proof {
        assert forall|k: i64| #[trigger] raw@.contains_key(k) implies fits(
            bin_qty(raw@, side, step, level_bin(side, k, step)),
        ) by {
            let b = level_bin(side, k, step) as i64;
            assert(sums@.contains_key(b));
            let j = choose|j: int| 0 <= j < entries@.len() && (#[trigger] entries@[j]).0 == b;
            assert(fits(*entries@[j].1 as int));
        }
    }
    true
}

/// One side of the order book, grouped by price bin.
pub struct GroupedDepth {
    pub orders: BTreeMap<i64, Qty>,
}

/// The quantity in the bin at `price`: zero where there is none.
pub open spec fn order_qty(orders: Map<i64, Qty>, price: i64) -> Qty {
    if orders.contains_key(price) {
        orders[price]
    } else {
        Qty { units: 0 }
    }
}

/// Whether `price` is the best of the side: the highest bid, the lowest ask.
pub open spec fn is_best_price(orders: Map<i64, Qty>, side: Side, price: Option<Price>) -> bool {
    match price {
        Some(p) => {
            &&& orders.contains_key(p.units)
            &&& forall|k: i64| #[trigger]
                orders.contains_key(k) ==> match side {
                    Side::Bid => k <= p.units,
                    Side::Ask => p.units <= k,
                }
        },
        None => orders == Map::<i64, Qty>::empty(),
    }
}

/// The best price of the side.
pub open spec fn best(orders: Map<i64, Qty>, side: Side) -> Option<Price> {
    if orders == Map::<i64, Qty>::empty() {
        None
    } else {
        Some(choose|p: Price| is_best_price(orders, side, Some(p)))
    }
}

/// There is only one best price.
pub proof fn lemma_best_unique(orders: Map<i64, Qty>, side: Side, price: Option<Price>)
    requires
        is_best_price(orders, side, price),
    ensures
        price == best(orders, side),
{
    if let Some(p) = price {
        assert(orders != Map::<i64, Qty>::empty());
        let q = choose|q: Price| is_best_price(orders, side, Some(q));
        assert(is_best_price(orders, side, Some(q)));
        assert(orders.contains_key(p.units) && orders.contains_key(q.units));
        assert(p.units == q.units);
    }
}

/// A side has a best price unless it is empty.
pub proof fn lemma_best_exists(orders: Map<i64, Qty>, side: Side)
    ensures
        is_best_price(orders, side, best(orders, side)),
{
    if orders != Map::<i64, Qty>::empty() {
        if forall|k: i64| !orders.contains_key(k) {
            assert(orders =~= Map::<i64, Qty>::empty());
        }
        let key = choose|k: i64| #[trigger] orders.contains_key(k);
        let r = match side {
            Side::Bid => lemma_highest_key(orders, key),
            Side::Ask => lemma_lowest_key(orders, key),
        };
        assert(is_best_price(orders, side, Some(Price { units: r })));
    }
}

/// The best price that the map holds for a side. None if it is empty.
pub fn best_price_of(orders: &BTreeMap<i64, Qty>, side: Side) -> (r: Option<Price>)
    ensures
        is_best_price(orders@, side, r),
        r == best(orders@, side),
{
    let best = match side {
        Side::Bid => highest_price(orders),
        Side::Ask => lowest_price(orders),
    };
    let r = match best {
        Some(units) => Some(Price { units }),
        None => None,
    };
    proof {
        lemma_best_unique(orders@, side, r);
    }
    r
}

impl GroupedDepth {
    pub fn new() -> (r: GroupedDepth)
        ensures
            r.orders@ == Map::<i64, Qty>::empty(),
    {
        GroupedDepth { orders: BTreeMap::new() }
    }

    /// Groups one side of the order book anew: bids go to the bin at or below their
    /// price, asks to the one at or above it.
    pub fn regroup_from_raw(&mut self, raw: &BTreeMap<i64, Qty>, side: Side, step: PriceStep)
        requires
            step.wf(),
            can_regroup(raw@, side, step),
        ensures
            is_regrouped(final(self).orders@, raw@, side, step),
    {
        self.orders.clear();
        let sums = match sum_levels(raw, side, step) {
            Some(sums) => sums,
            None => {
                return ;
            },
        };
        let entries = entries_by_price(&sums);
        let mut i: usize = 0;
        while i < entries.len()
            invariant
                i <= entries.len(),
                lists_entries(entries@, sums@),
                is_summed(sums@, raw@, side, step),
                can_regroup(raw@, side, step),
                forall|b: i64| #[trigger]
                    self.orders@.contains_key(b) ==> sums@.contains_key(b)
                        && self.orders@[b].units == sums@[b],
                forall|j: int|
                    0 <= j < i ==> self.orders@.contains_key((#[trigger] entries@[j]).0),
            decreases entries.len() - i,
        {
            let (bin, sum) = entries[i];
            proof {
                assert(sums@.contains_key(entries@[i as int].0));
                let k = choose|k: i64| #[trigger]
                    raw@.contains_key(k) && level_bin(side, k, step) == bin;
                assert(raw@.contains_key(k));
            }
            self.orders.insert(bin, Qty { units: *sum as i64 });
            i = i + 1;
        }
        proof {
            assert forall|k: i64| #[trigger] raw@.contains_key(k) implies self.orders@.contains_key(
                level_bin(side, k, step) as i64,
            ) by {
                let b = level_bin(side, k, step) as i64;
                assert(sums@.contains_key(b));
                let j = choose|j: int| 0 <= j < entries@.len() && (#[trigger] entries@[j]).0 == b;
                assert(self.orders@.contains_key(entries@[j].0));
            }
        }
    }

    /// The best price of the side. None if there are no orders.
    pub fn best_price(&self, side: Side) -> (r: Option<Price>)
        ensures
            is_best_price(self.orders@, side, r),
            r == best(self.orders@, side),
    {
        best_price_of(&self.orders, side)
    }

    /// The quantity in the bin at `price`.
    pub fn qty_at(&self, price: Price) -> (r: Qty)
        ensures
            r == order_qty(self.orders@, price.units),
    {
        match self.orders.get(&price.units) {
            Some(qty) => *qty,
            None => Qty::default(),
        }
    }
}

/// Grouping loses no quantity and adds none: together the bins hold what the price
/// levels hold.
pub proof fn law_regroup_conserves(
    orders: Map<i64, Qty>,
    m: Map<i64, Qty>,
    side: Side,
    step: PriceStep,
)
    requires
        m.dom().finite(),
        orders.dom().finite(),
        can_regroup(m, side, step),
        is_regrouped(orders, m, side, step),
    ensures
        map_sum(orders, qty_units()) == map_sum(m, qty_units()),
    decreases orders.dom().len(),
{
    if orders.dom().len() == 0 {
        assert(m =~= Map::<i64, Qty>::empty()) by {
            assert forall|k: i64| !m.contains_key(k) by {
                if m.contains_key(k) {
                    assert(orders.dom().contains(level_bin(side, k, step) as i64));
                }
            }
        }
        assert(orders =~= Map::<i64, Qty>::empty()) by {
            assert(orders.dom() =~= Set::empty());
        }
    } else {
        let b = orders.dom().choose();
        assert(orders.contains_key(b));
        let here = levels_in(m, side, step, b as int);
        let other_keys = Set::new(|k: i64| level_bin(side, k, step) != b);
        let rest = m.restrict(other_keys);
        assert(rest.dom() =~= m.dom().intersect(other_keys));
        assert(orders.remove(b).dom() =~= orders.dom().remove(b));
        assert forall|c: int| c != b implies #[trigger] levels_in(rest, side, step, c)
            =~= levels_in(m, side, step, c) by {}
        assert forall|k: i64| #[trigger] rest.contains_key(k) implies fits(
            level_bin(side, k, step),
        ) && fits(bin_qty(rest, side, step, level_bin(side, k, step))) && orders.remove(
            b,
        ).contains_key(level_bin(side, k, step) as i64) by {
            assert(m.contains_key(k));
            assert(levels_in(rest, side, step, level_bin(side, k, step)) =~= levels_in(
                m,
                side,
                step,
                level_bin(side, k, step),
            ));
        }
        assert forall|c: i64| #[trigger] orders.remove(b).contains_key(c) implies (exists|k: i64| 
        #[trigger] rest.contains_key(k) && level_bin(side, k, step) == c) && orders.remove(b)[c].units
            == bin_qty(rest, side, step, c as int) by {
            assert(orders.contains_key(c));
            let k = choose|k: i64| #[trigger] m.contains_key(k) && level_bin(side, k, step) == c;
            assert(rest.contains_key(k));
            assert(levels_in(rest, side, step, c as int) =~= levels_in(m, side, step, c as int));
        }
        law_regroup_conserves(orders.remove(b), rest, side, step);
        lemma_sum_split(m, qty_units(), Set::new(|k: i64| level_bin(side, k, step) == b));
        assert(m.restrict(Set::new(|k: i64| level_bin(side, k, step) == b).complement())
            =~= rest);
    }
}

/// A grouped book does not cross where the raw one does not: the best bid bin is
/// at or below the best bid, the best ask bin at or above the best ask.
pub proof fn law_grouped_book_brackets(
    bids: Map<i64, Qty>,
    asks: Map<i64, Qty>,
    raw_bids: Map<i64, Qty>,
    raw_asks: Map<i64, Qty>,
    step: PriceStep,
    best_bid: Price,
    best_ask: Price,
    raw_best_bid: Price,
    raw_best_ask: Price,
)
    requires
        step.wf(),
        is_regrouped(bids, raw_bids, Side::Bid, step),
        is_regrouped(asks, raw_asks, Side::Ask, step),
        is_best_price(bids, Side::Bid, Some(best_bid)),
        is_best_price(asks, Side::Ask, Some(best_ask)),
        is_best_price(raw_bids, Side::Bid, Some(raw_best_bid)),
        is_best_price(raw_asks, Side::Ask, Some(raw_best_ask)),
    ensures
        best_bid.units <= raw_best_bid.units,
        raw_best_ask.units <= best_ask.units,
        raw_best_bid.units < raw_best_ask.units ==> best_bid.units < best_ask.units,
{
    let k = choose|k: i64| #[trigger]
        raw_bids.contains_key(k) && level_bin(Side::Bid, k, step) == best_bid.units;
    crate::units::law_side_bins(k as int, step.units as int);
    let q = choose|q: i64| #[trigger]
        raw_asks.contains_key(q) && level_bin(Side::Ask, q, step) == best_ask.units;
    crate::units::law_side_bins(q as int, step.units as int);
}

/// Every bin of a grouped book lies on a multiple of the step.
pub proof fn law_levels_on_grid(
    orders: Map<i64, Qty>,
    m: Map<i64, Qty>,
    side: Side,
    step: PriceStep,
    bin: i64,
)
    requires
        step.wf(),
        is_regrouped(orders, m, side, step),
        orders.contains_key(bin),
    ensures
        bin as int % step.units as int == 0,
{
    let k = choose|k: i64| #[trigger] m.contains_key(k) && level_bin(side, k, step) == bin;
    crate::units::law_side_bins(k as int, step.units as int);
}

/// What a bin of a grouped side holds is what its price levels hold together.
proof fn lemma_bin_holds(
    orders: Map<i64, Qty>,
    m: Map<i64, Qty>,
    side: Side,
    step: PriceStep,
    bin: i64,
)
    requires
        is_regrouped(orders, m, side, step),
        can_regroup(m, side, step),
    ensures
        order_qty(orders, bin).units == bin_qty(m, side, step, bin as int),
{
    if !orders.contains_key(bin) {
        let here = levels_in(m, side, step, bin as int);
        assert forall|k: i64| !here.contains_key(k) by {
            if here.contains_key(k) {
                assert(m.contains_key(k));
            }
        }
        assert(here =~= Map::<i64, Qty>::empty());
        lemma_sum_empty::<i64, Qty>(qty_units());
    }
}

/// One more price level adds its quantity to the bin at the last multiple of the step that
/// is not above its price if it is a bid, at the first that is not below it if it is an
/// ask, and changes no other bin.
pub proof fn law_level_adds_to_its_bin(
    orders: Map<i64, Qty>,
    more_orders: Map<i64, Qty>,
    m: Map<i64, Qty>,
    side: Side,
    step: PriceStep,
    price: i64,
    qty: Qty,
    bin: i64,
)
    requires
        step.wf(),
        m.dom().finite(),
        !m.contains_key(price),
        can_regroup(m, side, step),
        can_regroup(m.insert(price, qty), side, step),
        is_regrouped(orders, m, side, step),
        is_regrouped(more_orders, m.insert(price, qty), side, step),
    ensures
        ({
            let before = if orders.contains_key(bin) {
                orders[bin].units as int
            } else {
                0
            };
            let after = if more_orders.contains_key(bin) {
                more_orders[bin].units as int
            } else {
                0
            };
            let s = step.units as int;
            let mine = bin as int % s == 0 && match side {
                Side::Bid => bin <= price < bin + s,
                Side::Ask => bin - s < price <= bin,
            };
            &&& after == before + (if mine {
                qty.units as int
            } else {
                0
            })
            &&& mine ==> more_orders.contains_key(bin)
            &&& !mine ==> more_orders.contains_key(bin) == orders.contains_key(bin)
        }),
{
    let s = step.units as int;
    let next = m.insert(price, qty);
    lemma_bin_holds(orders, m, side, step, bin);
    lemma_bin_holds(more_orders, next, side, step, bin);
    crate::units::law_side_in_plain_terms(price as int, s);
    let own = level_bin(side, price, step);
    if bin as int % s == 0 {
        crate::rows::lemma_on_grid_apart(bin as int, own, s);
    }
    let here = levels_in(m, side, step, bin as int);
    assert(here.dom() =~= m.dom().intersect(
        Set::new(|k: i64| level_bin(side, k, step) == bin),
    ));
    assert(next.contains_key(price));
    if own == bin {
        assert(levels_in(next, side, step, bin as int) =~= here.insert(price, qty));
        lemma_sum_insert(here, qty_units(), price, qty);
    } else {
        assert(levels_in(next, side, step, bin as int) =~= here);
        if orders.contains_key(bin) {
            let k = choose|k: i64| #[trigger] m.contains_key(k) && level_bin(side, k, step) == bin;
            assert(next.contains_key(k));
        }
        if more_orders.contains_key(bin) {
            let k = choose|k: i64| #[trigger]
                next.contains_key(k) && level_bin(side, k, step) == bin;
            assert(m.contains_key(k));
        }
    }
}

/// Without price levels there are no bins.
pub proof fn law_no_levels_no_bins(orders: Map<i64, Qty>, side: Side, step: PriceStep)
    requires
        is_regrouped(orders, Map::<i64, Qty>::empty(), side, step),
    ensures
        orders == Map::<i64, Qty>::empty(),
{
    assert forall|b: i64| !orders.contains_key(b) by {
        if orders.contains_key(b) {
            let m = Map::<i64, Qty>::empty();
            assert(exists|k: i64| #[trigger]
                m.contains_key(k) && level_bin(side, k, step) == b);
        }
    }
    assert(orders =~= Map::<i64, Qty>::empty());
}

/// The best price of a side is one of its prices: of bids none is higher, of asks none is
/// lower. There is one unless the side is empty. And the quantity in a bin is what the map
/// has for it, or nothing.
pub proof fn law_best_price(orders: Map<i64, Qty>, side: Side, k: i64)
    ensures
        match best(orders, side) {
            Some(p) => orders.contains_key(p.units) && (orders.contains_key(k) ==> match side {
                Side::Bid => k <= p.units,
                Side::Ask => p.units <= k,
            }),
            None => !orders.contains_key(k),
        },
        orders.contains_key(k) ==> order_qty(orders, k) == orders[k],
        !orders.contains_key(k) ==> order_qty(orders, k).units == 0,
{
    lemma_best_exists(orders, side);
}

/// One more price level can be grouped exactly if its bin can be held, and so can what the
/// bin holds with it.
pub proof fn law_when_levels_can_be_grouped(
    orders: Map<i64, Qty>,
    m: Map<i64, Qty>,
    side: Side,
    step: PriceStep,
    price: i64,
    qty: Qty,
)
    requires
        m.dom().finite(),
        !m.contains_key(price),
        can_regroup(m, side, step),
        is_regrouped(orders, m, side, step),
    ensures
        can_regroup(Map::empty(), side, step),
        ({
            let bin = level_bin(side, price, step);
            let before = if orders.contains_key(bin as i64) {
                orders[bin as i64].units as int
            } else {
                0
            };
            can_regroup(m.insert(price, qty), side, step) <==> i64::MIN <= bin <= i64::MAX
                && i64::MIN <= before + qty.units <= i64::MAX
        }),
{
    let next = m.insert(price, qty);
    let bin = level_bin(side, price, step);
    assert(next.contains_key(price));
    if fits(bin) {
        lemma_bin_holds(orders, m, side, step, bin as i64);
        let here = levels_in(m, side, step, bin);
        assert(here.dom() =~= m.dom().intersect(
            Set::new(|k: i64| level_bin(side, k, step) == bin),
        ));
        assert(levels_in(next, side, step, bin) =~= here.insert(price, qty));
        lemma_sum_insert(here, qty_units(), price, qty);
        if fits(order_qty(orders, bin as i64).units + qty.units) {
            assert forall|k: i64| #[trigger] next.contains_key(k) implies fits(
                level_bin(side, k, step),
            ) && fits(bin_qty(next, side, step, level_bin(side, k, step))) by {
                let b = level_bin(side, k, step);
                if b != bin {
                    assert(m.contains_key(k));
                    assert(levels_in(next, side, step, b) =~= levels_in(m, side, step, b));
                }
            }
        }
    }
}

} // verus!
