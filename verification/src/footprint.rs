//! Footprints: the trades of one bar, grouped by price.

use crate::bins::{bin_entries, bin_get, bin_insert};
use crate::market::Trade;
use crate::sums::{entries_sum, lemma_entries_sum, lemma_sum_insert, map_sum};
use crate::units::{fits, nearest_multiple, side_multiple, Price, PriceStep, Qty};
use rustc_hash::FxHashMap;
use vstd::prelude::*;

verus! {

broadcast use vstd::std_specs::hash::group_hash_axioms;

/// What the cells of a footprint show.
#[derive(Debug, Copy, Clone, PartialEq, Eq, Structural)]
pub enum ClusterKind {
    BidAsk,
    VolumeProfile,
    DeltaProfile,
}

impl Default for ClusterKind {
    fn default() -> (r: ClusterKind)
        ensures
            r == ClusterKind::BidAsk,
    {
        ClusterKind::BidAsk
    }
}

/// The trades at one price, summed up by side.
#[derive(Debug, Clone, Copy, PartialEq, Eq, Structural)]
pub struct GroupedTrades {
    pub buy_qty: Qty,
    pub sell_qty: Qty,
    /// When the first of the trades happened, in milliseconds.
    pub first_time: u64,
    /// When the last of the trades happened, in milliseconds.
    pub last_time: u64,
    pub buy_count: usize,
    pub sell_count: usize,
}

impl Default for GroupedTrades {
    fn default() -> (r: GroupedTrades)
        ensures
            r == (GroupedTrades {
                buy_qty: Qty { units: 0 },
                sell_qty: Qty { units: 0 },
                first_time: 0,
                last_time: 0,
                buy_count: 0,
                sell_count: 0,
            }),
    {
        GroupedTrades {
            buy_qty: Qty { units: 0 },
            sell_qty: Qty { units: 0 },
            first_time: 0,
            last_time: 0,
            buy_count: 0,
            sell_count: 0,
        }
    }
}

impl GroupedTrades {
    /// The group of one trade.
    pub open spec fn of(trade: Trade) -> GroupedTrades {
        let none = Qty { units: 0 };
        GroupedTrades {
            buy_qty: if trade.is_sell { none } else { trade.qty },
            sell_qty: if trade.is_sell { trade.qty } else { none },
            first_time: trade.time,
            last_time: trade.time,
            buy_count: if trade.is_sell { 0 } else { 1 },
            sell_count: if trade.is_sell { 1 } else { 0 },
        }
    }

    /// Whether the sums still fit when `trade` is added.
    pub open spec fn has_room(self, trade: Trade) -> bool {
        if trade.is_sell {
            fits(self.sell_qty.units + trade.qty.units) && self.sell_count < usize::MAX
        } else {
            fits(self.buy_qty.units + trade.qty.units) && self.buy_count < usize::MAX
        }
    }

    /// The group with one more trade.
    pub open spec fn with(self, trade: Trade) -> GroupedTrades {
        if trade.is_sell {
            GroupedTrades {
                sell_qty: Qty { units: (self.sell_qty.units + trade.qty.units) as i64 },
                sell_count: (self.sell_count + 1) as usize,
                last_time: trade.time,
                ..self
            }
        } else {
            GroupedTrades {
                buy_qty: Qty { units: (self.buy_qty.units + trade.qty.units) as i64 },
                buy_count: (self.buy_count + 1) as usize,
                last_time: trade.time,
                ..self
            }
        }
    }

    /// Bought and sold quantity together.
    pub open spec fn total(self) -> int {
        self.buy_qty.units + self.sell_qty.units
    }

    /// Bought less sold quantity.
    pub open spec fn delta(self) -> int {
        self.buy_qty.units - self.sell_qty.units
    }

    /// The quantity by which a cell of the given kind is scaled.
    pub open spec fn cluster(self, kind: ClusterKind) -> int {
        match kind {
            ClusterKind::BidAsk => crate::units::larger(
                self.buy_qty.units as int,
                self.sell_qty.units as int,
            ),
            ClusterKind::DeltaProfile => crate::units::distance(
                self.buy_qty.units as int,
                self.sell_qty.units as int,
            ),
            ClusterKind::VolumeProfile => self.total(),
        }
    }

    pub fn new(trade: &Trade) -> (r: GroupedTrades)
        ensures
            r == GroupedTrades::of(*trade),
    {
        GroupedTrades {
            buy_qty: if trade.is_sell {
                Qty::default()
            } else {
                trade.qty
            },
            sell_qty: if trade.is_sell {
                trade.qty
            } else {
                Qty::default()
            },
            first_time: trade.time,
            last_time: trade.time,
            buy_count: if trade.is_sell {
                0
            } else {
                1
            },
            sell_count: if trade.is_sell {
                1
            } else {
                0
            },
        }
    }

    pub fn add_trade(&mut self, trade: &Trade)
        requires
            old(self).has_room(*trade),
        ensures
            *final(self) == old(self).with(*trade),
    {
        if trade.is_sell {
            self.sell_qty = self.sell_qty.plus(trade.qty);
            self.sell_count = self.sell_count + 1;
        } else {
            self.buy_qty = self.buy_qty.plus(trade.qty);
            self.buy_count = self.buy_count + 1;
        }
        self.last_time = trade.time;
    }

    /// Whether the sums still fit when `trade` is added.
    pub fn can_add(&self, trade: &Trade) -> (r: bool)
        ensures
            r == self.has_room(*trade),
    {
        if trade.is_sell {
            self.sell_qty.units.checked_add(trade.qty.units).is_some() && self.sell_count
                < usize::MAX
        } else {
            self.buy_qty.units.checked_add(trade.qty.units).is_some() && self.buy_count
                < usize::MAX
        }
    }

    pub fn total_qty(&self) -> (r: Qty)
        requires
            fits(self.total()),
        ensures
            r.units == self.total(),
    {
        self.buy_qty.plus(self.sell_qty)
    }

    pub fn delta_qty(&self) -> (r: Qty)
        requires
            fits(self.delta()),
        ensures
            r.units == self.delta(),
    {
        self.buy_qty.minus(self.sell_qty)
    }

    pub fn max_cluster_qty(&self, cluster_kind: ClusterKind) -> (r: Qty)
        requires
            fits(self.cluster(cluster_kind)),
        ensures
            r.units == self.cluster(cluster_kind),
    {
        match cluster_kind {
            ClusterKind::BidAsk => self.buy_qty.max(self.sell_qty),
            ClusterKind::DeltaProfile => self.buy_qty.abs_diff(self.sell_qty),
            ClusterKind::VolumeProfile => self.total_qty(),
        }
    }
}

/// Whether a point of control was traded through again, and when.
#[derive(Debug, Clone, Copy, PartialEq, Eq, Structural)]
pub enum NPoc {
    /// Not looked at yet.
    Unset,
    /// Not traded through since.
    Naked,
    /// Traded through again at the given time, in milliseconds.
    Filled { at: u64 },
}

impl Default for NPoc {
    fn default() -> (r: NPoc)
        ensures
            r == NPoc::Unset,
    {
        NPoc::Unset
    }
}

impl NPoc {
    pub fn filled(&mut self, at: u64)
        ensures
            *final(self) == (NPoc::Filled { at }),
    {
        *self = NPoc::Filled { at };
    }

    pub fn unfilled(&mut self)
        ensures
            *final(self) == NPoc::Naked,
    {
        *self = NPoc::Naked;
    }
}

/// The price at which a bar traded most, with the quantity traded there.
#[derive(Debug, Clone, Copy, PartialEq, Eq, Structural)]
pub struct PointOfControl {
    pub price: Price,
    pub volume: Qty,
    pub status: NPoc,
}

impl Default for PointOfControl {
    fn default() -> (r: PointOfControl)
        ensures
            r == (PointOfControl {
                price: Price { units: 0 },
                volume: Qty { units: 0 },
                status: NPoc::Unset,
            }),
    {
        PointOfControl {
            price: Price { units: 0 },
            volume: Qty { units: 0 },
            status: NPoc::default(),
        }
    }
}

/// The trades of one bar by price bin, and the point of control once it was
/// calculated. Bins are keyed by their price in atomic units.
#[derive(Debug, Clone)]
pub struct KlineTrades {
    pub trades: FxHashMap<i64, GroupedTrades>,
    pub poc: Option<PointOfControl>,
}

pub open spec fn buy_units() -> spec_fn(GroupedTrades) -> int {
    |g: GroupedTrades| g.buy_qty.units as int
}

pub open spec fn sell_units() -> spec_fn(GroupedTrades) -> int {
    |g: GroupedTrades| g.sell_qty.units as int
}

/// What was bought in all bins together.
pub open spec fn bought(m: Map<i64, GroupedTrades>) -> int {
    map_sum(m, buy_units())
}

/// What was sold in all bins together.
pub open spec fn sold(m: Map<i64, GroupedTrades>) -> int {
    map_sum(m, sell_units())
}

/// Whether the bin at `key` has room for one more trade.
pub open spec fn bin_has_room(m: Map<i64, GroupedTrades>, key: i64, trade: Trade) -> bool {
    m.contains_key(key) ==> m[key].has_room(trade)
}

/// The bins with one more trade, in the bin at `key`.
pub open spec fn bins_with(m: Map<i64, GroupedTrades>, key: i64, trade: Trade) -> Map<
    i64,
    GroupedTrades,
> {
    m.insert(
        key,
        if m.contains_key(key) {
            m[key].with(trade)
        } else {
            GroupedTrades::of(trade)
        },
    )
}

/// The bin that side-based rounding gives a trade.
pub open spec fn side_bin(trade: Trade, step: PriceStep) -> int {
    side_multiple(trade.is_sell, trade.price.units as int, step.units as int)
}

/// The bin that nearest-multiple rounding gives a trade.
pub open spec fn nearest_bin(trade: Trade, step: PriceStep) -> int {
    nearest_multiple(trade.price.units as int, step.units as int)
}

/// Whether the bin at `key` lies between the two prices, both included.
pub open spec fn between(key: i64, highest: Price, lowest: Price) -> bool {
    lowest.units <= key <= highest.units
}

/// Whether `r` is when the earliest bin saw its first trade.
pub open spec fn is_first_trade_t(m: Map<i64, GroupedTrades>, r: Option<u64>) -> bool {
    match r {
        Some(t) => {
            &&& exists|k: i64| #[trigger] m.contains_key(k) && m[k].first_time == t
            &&& forall|k: i64| #[trigger] m.contains_key(k) ==> t <= m[k].first_time
        },
        None => m == Map::<i64, GroupedTrades>::empty(),
    }
}

/// Whether `r` is when the latest bin saw its last trade.
pub open spec fn is_last_trade_t(m: Map<i64, GroupedTrades>, r: Option<u64>) -> bool {
    match r {
        Some(t) => {
            &&& exists|k: i64| #[trigger] m.contains_key(k) && m[k].last_time == t
            &&& forall|k: i64| #[trigger] m.contains_key(k) ==> m[k].last_time <= t
        },
        None => m == Map::<i64, GroupedTrades>::empty(),
    }
}

/// Whether the total of every bin fits.
pub open spec fn totals_fit(m: Map<i64, GroupedTrades>) -> bool {
    forall|k: i64| #[trigger] m.contains_key(k) ==> fits(m[k].total())
}

/// Whether `poc` is a point of control of `m`: no bin traded more than its
/// volume, and its price is that of a bin that traded so much. Where no bin has a
/// positive total, price and volume are zero.
pub open spec fn is_poc(m: Map<i64, GroupedTrades>, poc: PointOfControl) -> bool {
    &&& poc.status == NPoc::Unset
    &&& poc.volume.units >= 0
    &&& forall|k: i64| #[trigger] m.contains_key(k) ==> m[k].total() <= poc.volume.units
    &&& if poc.volume.units == 0 {
        poc.price.units == 0
    } else {
        m.contains_key(poc.price.units) && m[poc.price.units].total() == poc.volume.units
    }
}

impl KlineTrades {
    pub fn new() -> (r: KlineTrades)
        ensures
            r.trades@ == Map::<i64, GroupedTrades>::empty(),
            r.poc is None,
    {
        KlineTrades { trades: FxHashMap::default(), poc: None }
    }

    /// When the earliest bin saw its first trade. None if there are no trades.
    pub fn first_trade_t(&self) -> (r: Option<u64>)
        ensures
            is_first_trade_t(self.trades@, r),
    {
        let entries = bin_entries(&self.trades);
        let mut first: Option<u64> = None;
        let mut i: usize = 0;
        while i < entries.len()
            invariant
                i <= entries.len(),
                crate::bins::lists_entries(entries@, self.trades@),
                first is None <==> i == 0,
                first matches Some(t) ==> {
                    &&& exists|j: int| 0 <= j < i && (#[trigger] entries[j]).1.first_time == t
                    &&& forall|j: int|
                        0 <= j < i ==> t <= (#[trigger] entries[j]).1.first_time
                },
            decreases entries.len() - i,
        {
            let time = entries[i].1.first_time;
            first = match first {
                Some(t) if t <= time => Some(t),
                _ => Some(time),
            };
            i = i + 1;
        }
        proof {
            if first is None {
                assert(self.trades@ =~= Map::<i64, GroupedTrades>::empty());
            }
        }
        first
    }

    /// When the latest bin saw its last trade. None if there are no trades.
    pub fn last_trade_t(&self) -> (r: Option<u64>)
        ensures
            is_last_trade_t(self.trades@, r),
    {
        let entries = bin_entries(&self.trades);
        let mut last: Option<u64> = None;
        let mut i: usize = 0;
        while i < entries.len()
            invariant
                i <= entries.len(),
                crate::bins::lists_entries(entries@, self.trades@),
                last is None <==> i == 0,
                last matches Some(t) ==> {
                    &&& exists|j: int| 0 <= j < i && (#[trigger] entries[j]).1.last_time == t
                    &&& forall|j: int| 0 <= j < i ==> (#[trigger] entries[j]).1.last_time <= t
                },
            decreases entries.len() - i,
        {
            let time = entries[i].1.last_time;
            last = match last {
                Some(t) if t >= time => Some(t),
                _ => Some(time),
            };
            i = i + 1;
        }
        proof {
            if last is None {
                assert(self.trades@ =~= Map::<i64, GroupedTrades>::empty());
            }
        }
        last
    }

    fn add_trade_to_bin(&mut self, trade: &Trade, price: Price)
        requires
            bin_has_room(old(self).trades@, price.units, *trade),
        ensures
            final(self).trades@ == bins_with(old(self).trades@, price.units, *trade),
            final(self).poc == old(self).poc,
    {
        let group = match bin_get(&self.trades, price.units) {
            Some(group) => {
                let mut group = *group;
                group.add_trade(trade);
                group
            },
            None => GroupedTrades::new(trade),
        };
        bin_insert(&mut self.trades, price.units, group);
    }

    /// Add trade to the bin at the step multiple computed with side-based rounding.
    /// Intended for order-book ladder/quotes; Floor for sells, ceil for buys.
    /// Introduces side bias at bin edges and should not be used for OHLC/footprint aggregation
    pub fn add_trade_to_side_bin(&mut self, trade: &Trade, step: PriceStep)
        requires
            step.wf(),
            fits(side_bin(*trade, step)),
            bin_has_room(old(self).trades@, side_bin(*trade, step) as i64, *trade),
        ensures
            final(self).trades@ == bins_with(
                old(self).trades@,
                side_bin(*trade, step) as i64,
                *trade,
            ),
            final(self).poc == old(self).poc,
    {
        let price = trade.price.round_to_side_step(trade.is_sell, step);
        self.add_trade_to_bin(trade, price);
    }

    /// Add trade to the bin at the nearest step multiple (side-agnostic).
    /// Ties (exactly half a step) round up to the higher multiple.
    /// Intended for footprint/OHLC trade aggregation
    pub fn add_trade_to_nearest_bin(&mut self, trade: &Trade, step: PriceStep)
        requires
            step.wf(),
            fits(nearest_bin(*trade, step)),
            bin_has_room(old(self).trades@, nearest_bin(*trade, step) as i64, *trade),
        ensures
            final(self).trades@ == bins_with(
                old(self).trades@,
                nearest_bin(*trade, step) as i64,
                *trade,
            ),
            final(self).poc == old(self).poc,
    {
        let price = trade.price.round_to_step(step);
        self.add_trade_to_bin(trade, price);
    }

    /// Whether [`KlineTrades::add_trade_to_nearest_bin`] can hold bin and sums.
    pub fn can_add_to_nearest_bin(&self, trade: &Trade, step: PriceStep) -> (r: bool)
        requires
            step.wf(),
        ensures
            r == (fits(nearest_bin(*trade, step)) && bin_has_room(
                self.trades@,
                nearest_bin(*trade, step) as i64,
                *trade,
            )),
    {
        if !trade.price.can_round_to_step(step) {
            return false;
        }
        let bin = trade.price.round_to_step(step);
        match bin_get(&self.trades, bin.units) {
            Some(group) => group.can_add(trade),
            None => true,
        }
    }

    /// The largest quantity that `f` gives for a bin between the two prices; zero
    /// if it gives none above zero.
    pub fn max_qty_by<F>(&self, highest: Price, lowest: Price, f: F) -> (r: Qty) where
        F: Fn(&GroupedTrades) -> Qty,

        requires
            forall|k: i64| #[trigger]
                self.trades@.contains_key(k) && between(k, highest, lowest) ==> call_requires(
                    f,
                    (&self.trades@[k],),
                ),
        ensures
            r.units >= 0,
            forall|k: i64| #[trigger]
                self.trades@.contains_key(k) && between(k, highest, lowest) ==> exists|q: Qty|
                    call_ensures(f, (&self.trades@[k],), q) && q.units <= r.units,
            r.units == 0 || exists|k: i64| #[trigger]
                self.trades@.contains_key(k) && between(k, highest, lowest) && call_ensures(
                    f,
                    (&self.trades@[k],),
                    r,
                ),
    {
        let entries = bin_entries(&self.trades);
        let mut max_qty = Qty::default();
        let mut i: usize = 0;
        while i < entries.len()
            invariant
                i <= entries.len(),
                crate::bins::lists_entries(entries@, self.trades@),
                forall|k: i64| #[trigger]
                    self.trades@.contains_key(k) && between(k, highest, lowest) ==> call_requires(
                        f,
                        (&self.trades@[k],),
                    ),
                max_qty.units >= 0,
                forall|j: int|
                    0 <= j < i && between((#[trigger] entries[j]).0, highest, lowest)
                        ==> exists|q: Qty|
                        call_ensures(f, (entries[j].1,), q) && q.units <= max_qty.units,
                max_qty.units == 0 || exists|j: int|
                    0 <= j < i && between((#[trigger] entries[j]).0, highest, lowest)
                        && call_ensures(f, (entries[j].1,), max_qty),
            decreases entries.len() - i,
        {
            let (price, group) = entries[i];
            if price >= lowest.units && price <= highest.units {
                assert(self.trades@.contains_key(entries[i as int].0));
                let qty = f(group);
                assert(call_ensures(f, (entries[i as int].1,), qty));
                max_qty = max_qty.max(qty);
            }
            i = i + 1;
        }
        max_qty
    }

    /// The quantity by which the cells between the two prices are scaled: the
    /// largest that a cell of the given kind shows there, and at least zero.
    pub fn max_cluster_qty(&self, cluster_kind: ClusterKind, highest: Price, lowest: Price) -> (r:
        Qty)
        requires
            forall|k: i64| #[trigger]
                self.trades@.contains_key(k) && between(k, highest, lowest) ==> fits(
                    self.trades@[k].cluster(cluster_kind),
                ),
        ensures
            is_max_cluster(self.trades@, cluster_kind, highest, lowest, r),
    {
        let f = |group: &GroupedTrades| -> (q: Qty)
            requires
                fits(group.cluster(cluster_kind)),
            ensures
                q.units == group.cluster(cluster_kind),
            { group.max_cluster_qty(cluster_kind) };
        self.max_qty_by(highest, lowest, f)
    }

    /// How much was bought and how much was sold in all bins together.
    pub fn flow(&self) -> (r: (i128, i128))
        ensures
            r.0 == bought(self.trades@),
            r.1 == sold(self.trades@),
    {
        let entries = bin_entries(&self.trades);
        let mut buy: i128 = 0;
        let mut sell: i128 = 0;
        let mut i: usize = 0;
        while i < entries.len()
            invariant
                i <= entries.len(),
                buy == entries_sum(entries@, buy_units(), i as int),
                sell == entries_sum(entries@, sell_units(), i as int),
                -0x8000_0000_0000_0000 * i <= buy <= 0x8000_0000_0000_0000 * i,
                -0x8000_0000_0000_0000 * i <= sell <= 0x8000_0000_0000_0000 * i,
            decreases entries.len() - i,
        {
            let group = entries[i].1;
            buy = buy + group.buy_qty.units as i128;
            sell = sell + group.sell_qty.units as i128;
            i = i + 1;
        }
        proof {
            lemma_entries_sum(entries@, self.trades@, buy_units());
            lemma_entries_sum(entries@, self.trades@, sell_units());
        }
        (buy, sell)
    }

    /// Finds the price at which the bar traded most. Without trades nothing
    /// changes. Where several bins traded equally much, it is one of them.
    pub fn calculate_poc(&mut self)
        requires
            totals_fit(old(self).trades@),
        ensures
            final(self).trades@ == old(self).trades@,
            old(self).trades@ == Map::<i64, GroupedTrades>::empty() ==> final(self).poc == old(self).poc,
            old(self).trades@ != Map::<i64, GroupedTrades>::empty() ==> {
                &&& final(self).poc is Some
                &&& is_poc(old(self).trades@, final(self).poc->0)
            },
    {
        if self.trades.is_empty() {
            assert(self.trades@ =~= Map::<i64, GroupedTrades>::empty());
            return ;
        }
        let entries = bin_entries(&self.trades);
        let mut max_volume = Qty::default();
        let mut poc_price = Price { units: 0 };
        let mut i: usize = 0;
        while i < entries.len()
            invariant
                i <= entries.len(),
                crate::bins::lists_entries(entries@, self.trades@),
                totals_fit(self.trades@),
                max_volume.units >= 0,
                forall|j: int|
                    0 <= j < i ==> (#[trigger] entries[j]).1.total() <= max_volume.units,
                max_volume.units == 0 ==> poc_price.units == 0,
                max_volume.units > 0 ==> exists|j: int|
                    0 <= j < i && (#[trigger] entries[j]).0 == poc_price.units
                        && entries[j].1.total() == max_volume.units,
            decreases entries.len() - i,
        {
            let (price, group) = entries[i];
            assert(self.trades@.contains_key(entries[i as int].0));
            let total_volume = group.total_qty();
            if total_volume.units > max_volume.units {
                max_volume = total_volume;
                poc_price = Price { units: price };
            }
            i = i + 1;
        }
        self.poc = Some(
            PointOfControl { price: poc_price, volume: max_volume, status: NPoc::default() },
        );
    }

    /// Sets the status of the point of control, if there is one.
    pub fn set_poc_status(&mut self, status: NPoc)
        ensures
            final(self).trades@ == old(self).trades@,
            final(self).poc == match old(self).poc {
                Some(poc) => Some(PointOfControl { status, ..poc }),
                None => None,
            },
    {
        if let Some(poc) = self.poc {
            self.poc = Some(PointOfControl { price: poc.price, volume: poc.volume, status });
        }
    }

    pub fn poc_price(&self) -> (r: Option<Price>)
        ensures
            r == match self.poc {
                Some(poc) => Some(poc.price),
                None => None,
            },
    {
        match self.poc {
            Some(poc) => Some(poc.price),
            None => None,
        }
    }

    pub fn clear(&mut self)
        ensures
            final(self).trades@ == Map::<i64, GroupedTrades>::empty(),
            final(self).poc is None,
    {
        self.trades.clear();
        self.poc = None;
    }
}

impl Default for KlineTrades {
    fn default() -> (r: KlineTrades)
        ensures
            r.trades@ == Map::<i64, GroupedTrades>::empty(),
            r.poc is None,
    {
        KlineTrades::new()
    }
}

/// Whether `r` is the largest quantity that a cell of the given kind shows
/// between the two prices, or zero if none is above zero.
pub open spec fn is_max_cluster(
    m: Map<i64, GroupedTrades>,
    kind: ClusterKind,
    highest: Price,
    lowest: Price,
    r: Qty,
) -> bool {
    &&& r.units >= 0
    &&& forall|k: i64| #[trigger]
        m.contains_key(k) && between(k, highest, lowest) ==> m[k].cluster(kind) <= r.units
    &&& r.units == 0 || exists|k: i64| #[trigger]
        m.contains_key(k) && between(k, highest, lowest) && m[k].cluster(kind) == r.units
}

/// Whichever bin a trade goes to, its quantity is added to the bar's total on
/// its own side, and the other side is left alone.
pub proof fn law_trade_is_conserved(m: Map<i64, GroupedTrades>, key: i64, trade: Trade)
    requires
        m.dom().finite(),
        bin_has_room(m, key, trade),
    ensures
        bought(bins_with(m, key, trade)) == bought(m) + (if trade.is_sell {
            0
        } else {
            trade.qty.units as int
        }),
        sold(bins_with(m, key, trade)) == sold(m) + (if trade.is_sell {
            trade.qty.units as int
        } else {
            0
        }),
{
    let group = if m.contains_key(key) {
        m[key].with(trade)
    } else {
        GroupedTrades::of(trade)
    };
    lemma_sum_insert(m, buy_units(), key, group);
    lemma_sum_insert(m, sell_units(), key, group);
}

/// Nearest-bin rounding is the same for both sides; side-based rounding puts a sell at
/// or below the price and a buy at or above it.
pub proof fn law_side_bias(sell: Trade, buy: Trade, step: PriceStep)
    requires
        step.wf(),
        sell.is_sell,
        !buy.is_sell,
        sell.price == buy.price,
    ensures
        nearest_bin(sell, step) == nearest_bin(buy, step),
        side_bin(sell, step) <= sell.price.units <= side_bin(buy, step),
        side_bin(sell, step) == side_bin(buy, step) <==> sell.price.units as int
            % step.units as int == 0,
{
    crate::units::law_side_bins(sell.price.units as int, step.units as int);
}

/// A trade that is not older than those before it gives the time of the last trade, and
/// leaves that of the first.
pub proof fn law_trade_times(
    m: Map<i64, GroupedTrades>,
    key: i64,
    trade: Trade,
    first: Option<u64>,
    last: Option<u64>,
)
    requires
        is_first_trade_t(m, first),
        is_last_trade_t(m, last),
        first matches Some(t) ==> t <= trade.time,
        last matches Some(t) ==> t <= trade.time,
    ensures
        is_first_trade_t(
            bins_with(m, key, trade),
            match first {
                Some(t) => Some(t),
                None => Some(trade.time),
            },
        ),
        is_last_trade_t(bins_with(m, key, trade), Some(trade.time)),
{
    let next = bins_with(m, key, trade);
    assert(next.contains_key(key));
    if let Some(t) = first {
        let k = choose|k: i64| #[trigger] m.contains_key(k) && m[k].first_time == t;
        assert(next.contains_key(k) && next[k].first_time == t);
    }
    assert forall|k: i64| #[trigger] next.contains_key(k) implies next[k].last_time <= trade.time by {
        if k != key {
            assert(m.contains_key(k));
        }
    }
    assert forall|k: i64| #[trigger] next.contains_key(k) implies (first matches Some(t) ==> t
        <= next[k].first_time) by {
        if k != key {
            assert(m.contains_key(k));
        }
    }
}

/// The quantity by which a cell is scaled. A bid/ask cell is scaled by the larger of its
/// two quantities, a delta cell by how far they are apart, a volume cell by both together.
/// None of this depends on which side is which; and where no quantity is negative, the
/// three come in the order delta, bid/ask, volume.
pub proof fn law_cluster_kinds(group: GroupedTrades, mirrored: GroupedTrades, kind: ClusterKind)
    requires
        mirrored.buy_qty == group.sell_qty,
        mirrored.sell_qty == group.buy_qty,
    ensures
        ({
            let buy = group.buy_qty.units as int;
            let sell = group.sell_qty.units as int;
            let bid_ask = group.cluster(ClusterKind::BidAsk);
            let delta = group.cluster(ClusterKind::DeltaProfile);
            let volume = group.cluster(ClusterKind::VolumeProfile);
            &&& buy <= bid_ask && sell <= bid_ask && (bid_ask == buy || bid_ask == sell)
            &&& 0 <= delta && (delta == buy - sell || delta == sell - buy)
            &&& volume == buy + sell
            &&& group.total() == buy + sell
            &&& group.delta() == buy - sell
            &&& 0 <= buy && 0 <= sell ==> delta <= bid_ask <= volume
        }),
        group.cluster(kind) == mirrored.cluster(kind),
{
}

/// What the cells between two prices are scaled by: no cell there exceeds it, and it is
/// zero or shown by one of them.
pub proof fn law_cells_fit_their_scale(
    m: Map<i64, GroupedTrades>,
    kind: ClusterKind,
    highest: Price,
    lowest: Price,
    r: Qty,
)
    requires
        is_max_cluster(m, kind, highest, lowest, r),
    ensures
        r.units >= 0,
        forall|k: i64| #[trigger]
            m.contains_key(k) && lowest.units <= k <= highest.units ==> match kind {
                ClusterKind::BidAsk => m[k].buy_qty.units <= r.units && m[k].sell_qty.units
                    <= r.units,
                ClusterKind::DeltaProfile => -r.units <= m[k].buy_qty.units - m[k].sell_qty.units
                    <= r.units,
                ClusterKind::VolumeProfile => m[k].buy_qty.units + m[k].sell_qty.units <= r.units,
            },
        r.units == 0 || exists|k: i64| #[trigger]
            m.contains_key(k) && lowest.units <= k <= highest.units && match kind {
                ClusterKind::BidAsk => m[k].buy_qty == r || m[k].sell_qty == r,
                ClusterKind::DeltaProfile => m[k].buy_qty.units - m[k].sell_qty.units == r.units
                    || m[k].sell_qty.units - m[k].buy_qty.units == r.units,
                ClusterKind::VolumeProfile => m[k].buy_qty.units + m[k].sell_qty.units == r.units,
            },
{
    assert forall|k: i64| #[trigger] m.contains_key(k) && lowest.units <= k
        <= highest.units implies between(k, highest, lowest) by {}
    if r.units != 0 {
        let k = choose|k: i64| #[trigger]
            m.contains_key(k) && between(k, highest, lowest) && m[k].cluster(kind) == r.units;
        assert(m.contains_key(k) && lowest.units <= k <= highest.units);
    }
}

/// The point of control: no bin traded more than its volume, and unless nothing was
/// traded its price is that of a bin that traded so much. It starts without a status.
pub proof fn law_point_of_control(m: Map<i64, GroupedTrades>, poc: PointOfControl)
    requires
        is_poc(m, poc),
    ensures
        poc.status == NPoc::Unset,
        forall|k: i64| #[trigger]
            m.contains_key(k) ==> m[k].buy_qty.units + m[k].sell_qty.units <= poc.volume.units,
        (exists|k: i64| #[trigger]
            m.contains_key(k) && m[k].buy_qty.units + m[k].sell_qty.units > 0) ==> {
            &&& m.contains_key(poc.price.units)
            &&& m[poc.price.units].buy_qty.units + m[poc.price.units].sell_qty.units
                == poc.volume.units
        },
        (forall|k: i64| #[trigger]
            m.contains_key(k) ==> m[k].buy_qty.units + m[k].sell_qty.units <= 0) ==> poc.volume.units
            == 0 && poc.price.units == 0,
{
    if exists|k: i64| #[trigger]
        m.contains_key(k) && m[k].buy_qty.units + m[k].sell_qty.units > 0 {
        let k = choose|k: i64| #[trigger]
            m.contains_key(k) && m[k].buy_qty.units + m[k].sell_qty.units > 0;
        assert(m[k].total() <= poc.volume.units);
    } else if poc.volume.units != 0 {
        assert(m.contains_key(poc.price.units));
    }
}

/// A trade goes to one bin and adds to its own side there, in quantity and count; the
/// other side, every other bin and the time of the bin's first trade stay, and the bin's
/// last trade is this one. A bin that was empty starts with it.
pub proof fn law_trade_enters_one_bin(m: Map<i64, GroupedTrades>, key: i64, trade: Trade)
    requires
        bin_has_room(m, key, trade),
    ensures
        ({
            let next = bins_with(m, key, trade);
            let qty = trade.qty.units as int;
            let (bought, sold) = if m.contains_key(key) {
                (m[key].buy_qty.units as int, m[key].sell_qty.units as int)
            } else {
                (0, 0)
            };
            let (buys, sells) = if m.contains_key(key) {
                (m[key].buy_count as int, m[key].sell_count as int)
            } else {
                (0, 0)
            };
            let (add_buy, add_sell) = if trade.is_sell {
                (0int, 1int)
            } else {
                (1int, 0int)
            };
            &&& next.dom() == m.dom().insert(key)
            &&& forall|k: i64| k != key && #[trigger] m.contains_key(k) ==> next[k] == m[k]
            &&& next[key].buy_qty.units == bought + add_buy * qty
            &&& next[key].sell_qty.units == sold + add_sell * qty
            &&& next[key].buy_count == buys + add_buy
            &&& next[key].sell_count == sells + add_sell
            &&& next[key].last_time == trade.time
            &&& next[key].first_time == (if m.contains_key(key) {
                m[key].first_time
            } else {
                trade.time
            })
        }),
{
    assert(bins_with(m, key, trade).dom() =~= m.dom().insert(key));
}

/// Without trades nothing was bought or sold.
pub proof fn law_no_trades_no_flow()
    ensures
        bought(Map::<i64, GroupedTrades>::empty()) == 0,
        sold(Map::<i64, GroupedTrades>::empty()) == 0,
{
    crate::sums::lemma_sum_empty::<i64, GroupedTrades>(buy_units());
    crate::sums::lemma_sum_empty::<i64, GroupedTrades>(sell_units());
}

/// A sell goes to the highest multiple of the step that is not above its price, a buy to
/// the lowest that is not below it; the nearest bin of either is at most half a step
/// away, and above the price if it is exactly that far.
pub proof fn law_bins_of_a_trade(trade: Trade, step: PriceStep)
    requires
        step.wf(),
    ensures
        side_bin(trade, step) % step.units as int == 0,
        trade.is_sell ==> side_bin(trade, step) <= trade.price.units < side_bin(trade, step)
            + step.units,
        !trade.is_sell ==> side_bin(trade, step) - step.units < trade.price.units <= side_bin(
            trade,
            step,
        ),
        nearest_bin(trade, step) % step.units as int == 0,
        -step.units <= 2 * (trade.price.units - nearest_bin(trade, step)) < step.units,
{
    let x = trade.price.units as int;
    let s = step.units as int;
    crate::units::law_side_bins(x, s);
    crate::units::law_nearest_bin(x, s);
    vstd::arithmetic::div_mod::lemma_mod_bound(x, s);
}

/// The times of the first and the last trade: no bin saw its first trade earlier and none
/// its last one later, and some bin did then. There are none exactly if there are no bins.
pub proof fn law_first_and_last_time(
    m: Map<i64, GroupedTrades>,
    first: Option<u64>,
    last: Option<u64>,
    k: i64,
)
    requires
        is_first_trade_t(m, first),
        is_last_trade_t(m, last),
    ensures
        first is None <==> m == Map::<i64, GroupedTrades>::empty(),
        last is None <==> m == Map::<i64, GroupedTrades>::empty(),
        m.contains_key(k) ==> (first matches Some(t) && t <= m[k].first_time),
        m.contains_key(k) ==> (last matches Some(t) && m[k].last_time <= t),
        first matches Some(t) ==> exists|q: i64| #[trigger]
            m.contains_key(q) && m[q].first_time == t,
        last matches Some(t) ==> exists|q: i64| #[trigger]
            m.contains_key(q) && m[q].last_time == t,
{
}

/// A trade finds room exactly if quantity and count of its side can still be held.
pub proof fn law_when_a_trade_finds_room(m: Map<i64, GroupedTrades>, key: i64, trade: Trade)
    ensures
        bin_has_room(m, key, trade) <==> (m.contains_key(key) ==> if trade.is_sell {
            i64::MIN <= m[key].sell_qty.units + trade.qty.units <= i64::MAX && m[key].sell_count
                < usize::MAX
        } else {
            i64::MIN <= m[key].buy_qty.units + trade.qty.units <= i64::MAX && m[key].buy_count
                < usize::MAX
        }),
{
}

} // verus!
