//! The recent trades of a ladder, kept one by one and grouped by price.

use crate::bins::{bin_entries, bin_get, lists_entries};
use crate::footprint::{
    bin_has_room, bins_with, bought, side_bin, sold, GroupedTrades, KlineTrades,
};
use crate::market::Trade;
use crate::ordered::{lemma_highest_key, lemma_lowest_key};
use crate::units::{fits, Price, PriceStep, Qty};
use vstd::prelude::*;

verus! {

/// The trades in their side bins.
pub open spec fn grouped(trades: Seq<Trade>, step: PriceStep) -> Map<i64, GroupedTrades>
    decreases trades.len(),
{
    if trades.len() == 0 {
        Map::empty()
    } else {
        bins_with(
            grouped(trades.drop_last(), step),
            side_bin(trades.last(), step) as i64,
            trades.last(),
        )
    }
}

/// Whether every trade has a side bin, and room in it.
pub open spec fn can_group(trades: Seq<Trade>, step: PriceStep) -> bool
    decreases trades.len(),
{
    trades.len() > 0 ==> {
        let last = trades.last();
        &&& can_group(trades.drop_last(), step)
        &&& fits(side_bin(last, step))
        &&& bin_has_room(
            grouped(trades.drop_last(), step),
            side_bin(last, step) as i64,
            last,
        )
    }
}

/// The trades that are not older than `keep_from`.
pub open spec fn kept(trades: Seq<Trade>, keep_from: u64) -> Seq<Trade>
    decreases trades.len(),
{
    if trades.len() == 0 {
        Seq::empty()
    } else if trades.last().time >= keep_from {
        kept(trades.drop_last(), keep_from).push(trades.last())
    } else {
        kept(trades.drop_last(), keep_from)
    }
}

/// Bought and sold quantity in the bin at `key`: zero where there is none.
pub open spec fn qty_at(m: Map<i64, GroupedTrades>, key: i64) -> (Qty, Qty) {
    if m.contains_key(key) {
        (m[key].buy_qty, m[key].sell_qty)
    } else {
        (Qty { units: 0 }, Qty { units: 0 })
    }
}

/// Whether `r` is the lowest and the highest bin.
pub open spec fn is_price_range(
    m: Map<i64, GroupedTrades>,
    r: Option<(Price, Price)>,
) -> bool {
    match r {
        Some((low, high)) => {
            &&& m.contains_key(low.units)
            &&& m.contains_key(high.units)
            &&& forall|k: i64| #[trigger] m.contains_key(k) ==> low.units <= k <= high.units
        },
        None => m == Map::<i64, GroupedTrades>::empty(),
    }
}

/// The lowest and the highest bin.
pub open spec fn price_range_of(m: Map<i64, GroupedTrades>) -> Option<(Price, Price)> {
    if m == Map::<i64, GroupedTrades>::empty() {
        None
    } else {
        Some(choose|r: (Price, Price)| is_price_range(m, Some(r)))
    }
}

proof fn lemma_price_range_unique(m: Map<i64, GroupedTrades>, r: Option<(Price, Price)>)
    requires
        is_price_range(m, r),
    ensures
        r == price_range_of(m),
{
    if let Some(p) = r {
        assert(m != Map::<i64, GroupedTrades>::empty());
        let q = choose|q: (Price, Price)| is_price_range(m, Some(q));
        assert(is_price_range(m, Some(q)));
        assert(p.0.units == q.0.units && p.1.units == q.1.units);
    }
}

/// Bins have a lowest and a highest unless there are none.
pub proof fn lemma_price_range_exists(m: Map<i64, GroupedTrades>)
    ensures
        is_price_range(m, price_range_of(m)),
{
    if m != Map::<i64, GroupedTrades>::empty() {
        if forall|k: i64| !m.contains_key(k) {
            assert(m =~= Map::<i64, GroupedTrades>::empty());
        }
        let key = choose|k: i64| #[trigger] m.contains_key(k);
        let low = Price { units: lemma_lowest_key(m, key) };
        let high = Price { units: lemma_highest_key(m, key) };
        assert(is_price_range(m, Some((low, high))));
    }
}

/// The recent trades, oldest first, and the same trades by side bin.
pub struct TradeStore {
    pub raw: Vec<Trade>,
    pub grouped: KlineTrades,
}

impl TradeStore {
    /// The bins hold the trades, grouped by `step`.
    pub open spec fn wf(self, step: PriceStep) -> bool {
        &&& step.wf()
        &&& can_group(self.raw@, step)
        &&& self.grouped.trades@ == grouped(self.raw@, step)
    }

    pub fn new() -> (r: TradeStore)
        ensures
            r.raw@ == Seq::<Trade>::empty(),
            r.grouped.trades@ == Map::<i64, GroupedTrades>::empty(),
            r.grouped.poc is None,
            forall|step: PriceStep| step.wf() ==> #[trigger] r.wf(step),
    {
        let r = TradeStore { raw: Vec::new(), grouped: KlineTrades::new() };
        assert forall|step: PriceStep| step.wf() implies #[trigger] r.wf(step) by {
            assert(grouped(r.raw@, step) =~= Map::<i64, GroupedTrades>::empty());
        }
        r
    }

    /// Whether there are no trades.
    pub fn is_empty(&self) -> (r: bool)
        ensures
            r == (self.raw@.len() == 0),
    {
        self.raw.len() == 0
    }

    /// Adds trades, in the order given.
    pub fn insert_trades(&mut self, buffer: &Vec<Trade>, step: PriceStep)
        requires
            old(self).wf(step),
            can_group(old(self).raw@ + buffer@, step),
        ensures
            final(self).wf(step),
            final(self).raw@ == old(self).raw@ + buffer@,
    {
        let mut i: usize = 0;
        assert(old(self).raw@ + buffer@.take(0) =~= old(self).raw@);
        while i < buffer.len()
            invariant
                i <= buffer.len(),
                self.wf(step),
                self.raw@ == old(self).raw@ + buffer@.take(i as int),
                can_group(old(self).raw@ + buffer@, step),
            decreases buffer.len() - i,
        {
            let trade = buffer[i];
            let ghost next = old(self).raw@ + buffer@.take(i + 1);
            proof {
                assert(next =~= self.raw@.push(trade));
                assert(next =~= (old(self).raw@ + buffer@).take(next.len() as int));
                lemma_can_group_take(old(self).raw@ + buffer@, step, next.len() as int);
                assert(next.drop_last() =~= self.raw@);
            }
            self.grouped.add_trade_to_side_bin(&trade, step);
            self.raw.push(trade);
            i = i + 1;
        }
        assert(buffer@.take(i as int) =~= buffer@);
    }

    /// Groups all trades anew, by another step.
    pub fn rebuild_grouped(&mut self, step: PriceStep)
        requires
            step.wf(),
            can_group(old(self).raw@, step),
        ensures
            final(self).wf(step),
            final(self).raw@ == old(self).raw@,
    {
        self.grouped.clear();
        let mut i: usize = 0;
        assert(self.raw@.take(0) =~= Seq::<Trade>::empty());
        while i < self.raw.len()
            invariant
                i <= self.raw.len(),
                step.wf(),
                self.raw@ == old(self).raw@,
                can_group(self.raw@, step),
                self.grouped.trades@ == grouped(self.raw@.take(i as int), step),
            decreases self.raw.len() - i,
        {
            let trade = self.raw[i];
            proof {
                lemma_can_group_take(self.raw@, step, i + 1);
                assert(self.raw@.take(i + 1).drop_last() =~= self.raw@.take(i as int));
            }
            self.grouped.add_trade_to_side_bin(&trade, step);
            i = i + 1;
        }
        assert(self.raw@.take(i as int) =~= self.raw@);
    }

    /// Bought and sold quantity in the bin at `price`.
    pub fn trade_qty_at(&self, price: Price) -> (r: (Qty, Qty))
        ensures
            r == qty_at(self.grouped.trades@, price.units),
    {
        match bin_get(&self.grouped.trades, price.units) {
            Some(group) => (group.buy_qty, group.sell_qty),
            None => (Qty::default(), Qty::default()),
        }
    }

    /// The lowest and the highest bin. None if there are no trades.
    pub fn price_range(&self) -> (r: Option<(Price, Price)>)
        ensures
            is_price_range(self.grouped.trades@, r),
            r == price_range_of(self.grouped.trades@),
    {
        let entries = bin_entries(&self.grouped.trades);
        if entries.len() == 0 {
            assert(self.grouped.trades@ =~= Map::<i64, GroupedTrades>::empty());
            return None;
        }
        let mut low = entries[0].0;
        let mut high = entries[0].0;
        let mut i: usize = 1;
        assert(self.grouped.trades@.contains_key(entries@[0].0));
        while i < entries.len()
            invariant
                1 <= i <= entries.len(),
                lists_entries(entries@, self.grouped.trades@),
                self.grouped.trades@.contains_key(low),
                self.grouped.trades@.contains_key(high),
                forall|j: int| 0 <= j < i ==> low <= (#[trigger] entries@[j]).0 <= high,
            decreases entries.len() - i,
        {
            let key = entries[i].0;
            assert(self.grouped.trades@.contains_key(entries@[i as int].0));
            if key < low {
                low = key;
            }
            if key > high {
                high = key;
            }
            i = i + 1;
        }
        let r = Some((Price { units: low }, Price { units: high }));
        proof {
            lemma_price_range_unique(self.grouped.trades@, r);
        }
        r
    }

    /// The trades that are not older than the retention time.
    pub fn kept_trades(&self, now: u64, retention_ms: u64) -> (r: Vec<Trade>)
        ensures
            r@ == kept(self.raw@, keep_from(now, retention_ms)),
            r@.len() <= self.raw@.len(),
            r@.len() == self.raw@.len() ==> r@ == self.raw@,
    {
        let oldest: u64 = now.saturating_sub(retention_ms);
        let mut rest: Vec<Trade> = Vec::new();
        let mut i: usize = 0;
        assert(self.raw@.take(0) =~= Seq::<Trade>::empty());
        while i < self.raw.len()
            invariant
                i <= self.raw.len(),
                rest@ == kept(self.raw@.take(i as int), oldest),
                rest@.len() <= i,
                rest@.len() == i ==> rest@ == self.raw@.take(i as int),
            decreases self.raw.len() - i,
        {
            let trade = self.raw[i];
            let ghost next = self.raw@.take(i + 1);
            assert(next.drop_last() =~= self.raw@.take(i as int));
            assert(next =~= self.raw@.take(i as int).push(trade));
            if trade.time >= oldest {
                rest.push(trade);
            }
            i = i + 1;
        }
        assert(self.raw@.take(i as int) =~= self.raw@);
        rest
    }

    /// If a cleanup is due, drops the trades that are older than the retention time
    /// and groups the others anew. Says whether any were dropped.
    pub fn maybe_cleanup(&mut self, now: u64, retention_ms: u64, due: bool, step: PriceStep) -> (r:
        bool)
        requires
            old(self).wf(step),
            due ==> can_group(kept(old(self).raw@, keep_from(now, retention_ms)), step),
        ensures
            final(self).wf(step),
            final(self).raw@ == (if due {
                kept(old(self).raw@, keep_from(now, retention_ms))
            } else {
                old(self).raw@
            }),
            r == (final(self).raw@.len() < old(self).raw@.len()),
    {
        if !due {
            return false;
        }
        let rest = self.kept_trades(now, retention_ms);
        if rest.len() == self.raw.len() {
            return false;
        }
        self.raw = rest;
        self.rebuild_grouped(step);
        true
    }
}

/// Whether every trade has a side bin, and room in it.
pub fn check_group(trades: &Vec<Trade>, step: PriceStep) -> (r: bool)
    requires
        step.wf(),
    ensures
        r == can_group(trades@, step),
{
    let mut bins = KlineTrades::new();
    let mut i: usize = 0;
    assert(trades@.take(0) =~= Seq::<Trade>::empty());
    while i < trades.len()
        invariant
            i <= trades.len(),
            step.wf(),
            can_group(trades@.take(i as int), step),
            bins.trades@ == grouped(trades@.take(i as int), step),
        decreases trades.len() - i,
    {
        let trade = trades[i];
        let ghost next = trades@.take(i + 1);
        proof {
            assert(next.drop_last() =~= trades@.take(i as int));
            if can_group(trades@, step) {
                lemma_can_group_take(trades@, step, i + 1);
            }
        }
        match trade.price.checked_side_step(trade.is_sell, step) {
            Some(bin) => {
                if let Some(group) = bin_get(&bins.trades, bin.units) {
                    if !group.can_add(&trade) {
                        return false;
                    }
                }
            },
            None => {
                return false;
            },
        }
        bins.add_trade_to_side_bin(&trade, step);
        i = i + 1;
    }
    assert(trades@.take(i as int) =~= trades@);
    true
}

/// What the trades bought together.
pub open spec fn buys(trades: Seq<Trade>) -> int
    decreases trades.len(),
{
    if trades.len() == 0 {
        0
    } else {
        buys(trades.drop_last()) + (if trades.last().is_sell {
            0
        } else {
            trades.last().qty.units as int
        })
    }
}

/// What the trades sold together.
pub open spec fn sells(trades: Seq<Trade>) -> int
    decreases trades.len(),
{
    if trades.len() == 0 {
        0
    } else {
        sells(trades.drop_last()) + (if trades.last().is_sell {
            trades.last().qty.units as int
        } else {
            0
        })
    }
}

/// Grouping loses no quantity and adds none, whatever the step: together the bins
/// hold on each side what the trades bought and sold.
pub proof fn law_grouping_conserves(trades: Seq<Trade>, step: PriceStep)
    requires
        can_group(trades, step),
    ensures
        grouped(trades, step).dom().finite(),
        bought(grouped(trades, step)) == buys(trades),
        sold(grouped(trades, step)) == sells(trades),
    decreases trades.len(),
{
    if trades.len() > 0 {
        law_grouping_conserves(trades.drop_last(), step);
        crate::footprint::law_trade_is_conserved(
            grouped(trades.drop_last(), step),
            side_bin(trades.last(), step) as i64,
            trades.last(),
        );
    } else {
        crate::sums::lemma_sum_empty::<i64, GroupedTrades>(crate::footprint::buy_units());
        crate::sums::lemma_sum_empty::<i64, GroupedTrades>(crate::footprint::sell_units());
    }
}

/// Every bin of grouped trades lies on a multiple of the step, less than one step
/// from the price of some trade in it.
pub proof fn law_bins_on_grid(trades: Seq<Trade>, step: PriceStep, key: i64)
    requires
        step.wf(),
        can_group(trades, step),
        grouped(trades, step).contains_key(key),
    ensures
        key as int % step.units as int == 0,
        exists|i: int|
            0 <= i < trades.len() && side_bin(#[trigger] trades[i], step) == key
                && -step.units < key - trades[i].price.units < step.units,
    decreases trades.len(),
{
    let last = trades.last();
    if key == side_bin(last, step) {
        crate::units::law_side_bins(last.price.units as int, step.units as int);
        assert(trades[trades.len() - 1] == last);
        vstd::arithmetic::div_mod::lemma_mod_bound(last.price.units as int, step.units as int);
    } else {
        let head = trades.drop_last();
        law_bins_on_grid(head, step, key);
        let i = choose|i: int|
            0 <= i < head.len() && side_bin(#[trigger] head[i], step) == key && -step.units < key
                - head[i].price.units < step.units;
        assert(trades[i] == head[i]);
    }
}

/// The time before which trades are older than the retention time.
pub open spec fn keep_from(now: u64, retention_ms: u64) -> u64 {
    if now < retention_ms {
        0
    } else {
        (now - retention_ms) as u64
    }
}

/// If trades can be grouped, so can the first of them.
pub proof fn lemma_can_group_take(trades: Seq<Trade>, step: PriceStep, n: int)
    requires
        can_group(trades, step),
        0 <= n <= trades.len(),
    ensures
        can_group(trades.take(n), step),
    decreases trades.len(),
{
    if n < trades.len() {
        lemma_can_group_take(trades.drop_last(), step, n);
        assert(trades.drop_last().take(n) =~= trades.take(n));
    } else {
        assert(trades.take(n) =~= trades);
    }
}

/// One more trade adds its quantity, on its own side, to the bin at the last multiple of
/// the step that is not above its price if it is a sell, at the first that is not below it
/// if it is a buy, and changes no other bin.
pub proof fn law_trade_adds_to_its_bin(
    trades: Seq<Trade>,
    trade: Trade,
    step: PriceStep,
    key: i64,
)
    requires
        step.wf(),
        can_group(trades.push(trade), step),
    ensures
        ({
            let before = qty_at(grouped(trades, step), key);
            let after = qty_at(grouped(trades.push(trade), step), key);
            let s = step.units as int;
            let x = trade.price.units as int;
            let mine = key as int % s == 0 && if trade.is_sell {
                key <= x < key + s
            } else {
                key - s < x <= key
            };
            &&& after.0.units == before.0.units + (if mine && !trade.is_sell {
                trade.qty.units as int
            } else {
                0
            })
            &&& after.1.units == before.1.units + (if mine && trade.is_sell {
                trade.qty.units as int
            } else {
                0
            })
        }),
{
    let all = trades.push(trade);
    assert(all.drop_last() =~= trades);
    assert(all.last() == trade);
    let s = step.units as int;
    let x = trade.price.units as int;
    crate::units::law_side_in_plain_terms(x, s);
    let bin = side_bin(trade, step);
    if key as int % s == 0 {
        crate::rows::lemma_on_grid_apart(key as int, bin, s);
    }
}

/// Without trades every bin is empty; and what a bin holds is what the map has for it.
pub proof fn law_bins_start_empty(m: Map<i64, GroupedTrades>, step: PriceStep, key: i64)
    ensures
        grouped(Seq::empty(), step) == Map::<i64, GroupedTrades>::empty(),
        !m.contains_key(key) ==> qty_at(m, key).0.units == 0 && qty_at(m, key).1.units == 0,
        m.contains_key(key) ==> qty_at(m, key).0 == m[key].buy_qty && qty_at(m, key).1
            == m[key].sell_qty,
{
}

/// The trades that stay are those that are not further back than the retention time, in
/// their order.
pub proof fn law_retention(trades: Seq<Trade>, now: u64, retention_ms: u64)
    ensures
        kept(trades, keep_from(now, retention_ms)) == trades.filter(
            |t: Trade| t.time + retention_ms >= now,
        ),
    decreases trades.len(),
{
    reveal(Seq::filter);
    if trades.len() > 0 {
        law_retention(trades.drop_last(), now, retention_ms);
    }
}

/// The range of prices: some trade's bin is the lowest and some trade's bin is the highest,
/// and there is a range unless there are no bins.
pub proof fn law_price_range(m: Map<i64, GroupedTrades>, r: Option<(Price, Price)>, k: i64)
    requires
        r == price_range_of(m),
    ensures
        r is None ==> !m.contains_key(k),
        r matches Some((low, high)) ==> {
            &&& m.contains_key(low.units)
            &&& m.contains_key(high.units)
            &&& m.contains_key(k) ==> low.units <= k <= high.units
        },
{
    lemma_price_range_exists(m);
}

/// What the trades bought and sold together, one after the other.
pub proof fn law_flow_of_trades(trades: Seq<Trade>, trade: Trade)
    ensures
        buys(Seq::empty()) == 0,
        sells(Seq::empty()) == 0,
        buys(trades.push(trade)) - buys(trades) == (if trade.is_sell {
            0
        } else {
            trade.qty.units as int
        }),
        sells(trades.push(trade)) - sells(trades) == (if trade.is_sell {
            trade.qty.units as int
        } else {
            0
        }),
{
    assert(trades.push(trade).drop_last() =~= trades);
}

/// One more trade can be grouped exactly if those before it can, its bin can be held, and
/// so can the quantity and the count of its side in that bin.
pub proof fn law_when_trades_can_be_grouped(trades: Seq<Trade>, trade: Trade, step: PriceStep)
    ensures
        can_group(Seq::empty(), step),
        ({
            let bin = side_bin(trade, step);
            let bins = grouped(trades, step);
            let held = bins.contains_key(bin as i64);
            let group = bins[bin as i64];
            can_group(trades.push(trade), step) <==> {
                &&& can_group(trades, step)
                &&& i64::MIN <= bin <= i64::MAX
                &&& held && trade.is_sell ==> i64::MIN <= group.sell_qty.units + trade.qty.units
                    <= i64::MAX && group.sell_count < usize::MAX
                &&& held && !trade.is_sell ==> i64::MIN <= group.buy_qty.units + trade.qty.units
                    <= i64::MAX && group.buy_count < usize::MAX
            }
        }),
{
    assert(trades.push(trade).drop_last() =~= trades);
}

} // verus!
