//! Cumulative Volume Delta indicator.
//!
//! Two modes (switchable via [`CvdConfig`]):
//!
//! Classic mode (`ema_mode = false`): the running sum of bought less sold
//! quantity over the bars. Unbounded.
//!
//! EMA-ratio mode (`ema_mode = true`): EMA(buy_qty) / EMA(sell_qty) per bar. The
//! averaging is left to the caller, who hands in the function that advances the
//! averages by one bar; which bars it is given, in what order and with what
//! period is decided here.

use crate::bins::lists_entries;
use crate::footprint::{
    bin_has_room, bins_with, bought, buy_units, law_trade_is_conserved, sell_units, sold,
    GroupedTrades, KlineTrades,
};
use crate::kline::{CvdConfig, KlineDataPoint};
use crate::market::Trade;
use crate::ordered::{entries_by_time, increasing_times};
use crate::sums::map_sum;
use std::collections::BTreeMap;
use vstd::prelude::*;

verus! {

broadcast use {vstd::std_specs::btree::group_btree_axioms, vstd::laws_cmp::group_laws_cmp};

/// The bars of a chart.
pub enum PlotData {
    /// Bars of equal duration, keyed by the time at which they start.
    TimeBased { datapoints: BTreeMap<u64, KlineDataPoint> },
    /// The footprints of bars of equal trade count, oldest first.
    TickBased { datapoints: Vec<KlineTrades> },
}

/// What the indicator reads of one bar: where it stands on the chart, and what
/// was bought and sold in it.
pub struct Bar {
    pub key: u64,
    pub buy: int,
    pub sell: int,
}

impl Bar {
    pub open spec fn of(key: u64, m: Map<i64, GroupedTrades>) -> Bar {
        Bar { key, buy: bought(m), sell: sold(m) }
    }

    /// Bought less sold quantity.
    pub open spec fn delta(self) -> int {
        self.buy - self.sell
    }
}

/// Whether the keys of `bars` increase from each bar to the next.
pub open spec fn chronological(bars: Seq<Bar>) -> bool {
    forall|i: int, j: int|
        0 <= i < j < bars.len() ==> (#[trigger] bars[i]).key < (#[trigger] bars[j]).key
}

/// Whether `bars` are the bars of a time series, in order of time.
pub open spec fn lists_series(bars: Seq<Bar>, m: Map<u64, KlineDataPoint>) -> bool {
    &&& chronological(bars)
    &&& forall|i: int|
        0 <= i < bars.len() ==> m.contains_key((#[trigger] bars[i]).key) && bars[i] == Bar::of(
            bars[i].key,
            m[bars[i].key].footprint.trades@,
        )
    &&& forall|k: u64| #[trigger]
        m.contains_key(k) ==> exists|i: int| 0 <= i < bars.len() && (#[trigger] bars[i]).key == k
}

impl PlotData {
    /// The bars in the order in which they are charted. Bars of equal trade count
    /// are keyed by their position.
    pub open spec fn bars(self) -> Seq<Bar> {
        match self {
            PlotData::TimeBased { datapoints } => choose|bars: Seq<Bar>|
                lists_series(bars, datapoints@),
            PlotData::TickBased { datapoints } => Seq::new(
                datapoints@.len(),
                |i: int| Bar::of(i as u64, datapoints@[i].trades@),
            ),
        }
    }

    /// The key and footprint of every bar, in the order in which they are charted.
    pub fn footprints(&self) -> (r: Vec<(u64, &KlineTrades)>)
        ensures
            r@.len() == self.bars().len(),
            forall|i: int|
                0 <= i < r@.len() ==> self.bars()[i] == Bar::of(
                    (#[trigger] r@[i]).0,
                    r@[i].1.trades@,
                ),
            chronological(self.bars()),
    {
        let mut r: Vec<(u64, &KlineTrades)> = Vec::new();
        match self {
            PlotData::TimeBased { datapoints } => {
                let entries = entries_by_time(datapoints);
                let ghost bars = Seq::new(
                    entries@.len(),
                    |i: int| Bar::of(entries@[i].0, entries@[i].1.footprint.trades@),
                );
                let mut i: usize = 0;
                while i < entries.len()
                    invariant
                        i <= entries.len(),
                        r@.len() == i,
                        forall|j: int|
                            0 <= j < i ==> (#[trigger] r@[j]) == (
                                entries@[j].0,
                                &entries@[j].1.footprint,
                            ),
                    decreases entries.len() - i,
                {
                    r.push((entries[i].0, &entries[i].1.footprint));
                    i = i + 1;
                }
                proof {
                    assert(lists_series(bars, datapoints@)) by {
                        assert forall|k: u64| #[trigger]
                            datapoints@.contains_key(k) implies exists|i: int|
                            0 <= i < bars.len() && (#[trigger] bars[i]).key == k by {
                            let i = choose|i: int|
                                0 <= i < entries@.len() && (#[trigger] entries@[i]).0 == k;
                            assert(bars[i].key == k);
                        }
                        assert forall|i: int| 0 <= i < bars.len() implies datapoints@.contains_key(
                            (#[trigger] bars[i]).key,
                        ) && bars[i] == Bar::of(
                            bars[i].key,
                            datapoints@[bars[i].key].footprint.trades@,
                        ) by {
                            assert(datapoints@.contains_key(entries@[i].0));
                        }
                        assert forall|i: int, j: int| 0 <= i < j < bars.len() implies (
                        #[trigger] bars[i]).key < (#[trigger] bars[j]).key by {
                            assert(entries@[i].0 < entries@[j].0);
                        }
                    }
                    lemma_series_unique(bars, self.bars(), datapoints@);
                }
            },
            PlotData::TickBased { datapoints } => {
                let mut i: usize = 0;
                while i < datapoints.len()
                    invariant
                        i <= datapoints.len(),
                        r@.len() == i,
                        forall|j: int|
                            0 <= j < i ==> (#[trigger] r@[j]) == (j as u64, &datapoints@[j]),
                    decreases datapoints.len() - i,
                {
                    r.push((i as u64, &datapoints[i]));
                    i = i + 1;
                }
            },
        }
        r
    }
}

/// A time series has only one list of bars.
proof fn lemma_series_unique(a: Seq<Bar>, b: Seq<Bar>, m: Map<u64, KlineDataPoint>)
    requires
        lists_series(a, m),
        lists_series(b, m),
    ensures
        a == b,
{
    lemma_series_prefix(a, b, m, a.len() as int);
    lemma_series_prefix(b, a, m, b.len() as int);
    assert(a =~= b);
}

proof fn lemma_series_prefix(a: Seq<Bar>, b: Seq<Bar>, m: Map<u64, KlineDataPoint>, n: int)
    requires
        lists_series(a, m),
        lists_series(b, m),
        0 <= n <= a.len(),
    ensures
        n <= b.len(),
        forall|i: int| 0 <= i < n ==> a[i] == b[i],
    decreases n,
{
    if n > 0 {
        lemma_series_prefix(a, b, m, n - 1);
        let ka = a[n - 1].key;
        assert(m.contains_key(ka));
        let j = choose|j: int| 0 <= j < b.len() && (#[trigger] b[j]).key == ka;
        assert(j >= n - 1) by {
            if j < n - 1 {
                assert(a[j] == b[j]);
                assert(a[j].key < a[n - 1].key);
            }
        }
        let kb = b[n - 1].key;
        assert(m.contains_key(kb));
        let i = choose|i: int| 0 <= i < a.len() && (#[trigger] a[i]).key == kb;
        if i < n - 1 {
            assert(a[i] == b[i]);
            assert(b[i].key < b[n - 1].key);
        }
        if n - 1 < j {
            assert(b[n - 1].key < b[j].key);
            assert(i >= n - 1);
            if n - 1 < i {
                assert(a[n - 1].key < a[i].key);
            }
        }
        assert(a[n - 1].key == b[n - 1].key);
    }
}

/// Whether `x` can be held as a cumulative delta.
pub open spec fn fits_delta(x: int) -> bool {
    i128::MIN <= x <= i128::MAX
}

/// The delta of the first `n` bars together.
pub open spec fn run_total(bars: Seq<Bar>, n: int) -> int
    decreases n,
{
    if n <= 0 {
        0
    } else {
        run_total(bars, n - 1) + bars[n - 1].delta()
    }
}

/// Whether every delta and every running sum from `base`, over the bars from
/// number `start` on, can be held.
pub open spec fn run_fits(bars: Seq<Bar>, start: int, base: int) -> bool {
    forall|i: int|
        start <= i < bars.len() ==> fits_delta((#[trigger] bars[i]).delta()) && fits_delta(
            base + run_total(bars, i + 1) - run_total(bars, start),
        )
}

impl PlotData {
    /// Whether every delta and every running sum from `base`, over the bars from
    /// number `start` on, can be held.
    pub fn run_fits(&self, start: usize, base: i128) -> (r: bool)
        ensures
            r == run_fits(self.bars(), start as int, base as int),
    {
        let footprints = self.footprints();
        let ghost bars = self.bars();
        let mut sum: i128 = base;
        let mut i: usize = start;
        while i < footprints.len()
            invariant
                start <= i,
                bars == self.bars(),
                footprints@.len() == bars.len(),
                forall|j: int|
                    0 <= j < bars.len() ==> bars[j] == Bar::of(
                        (#[trigger] footprints@[j]).0,
                        footprints@[j].1.trades@,
                    ),
                sum == base + run_total(bars, i as int) - run_total(bars, start as int),
                forall|j: int|
                    start <= j < i ==> fits_delta((#[trigger] bars[j]).delta()) && fits_delta(
                        base + run_total(bars, j + 1) - run_total(bars, start as int),
                    ),
            decreases footprints.len() - i,
        {
            let footprint = footprints[i].1;
            assert(bars[i as int] == Bar::of(footprints@[i as int].0, footprint.trades@));
            assert(run_total(bars, i + 1) == run_total(bars, i as int) + bars[i as int].delta());
            let (buy, sell) = footprint.flow();
            match buy.checked_sub(sell) {
                Some(delta) => match sum.checked_add(delta) {
                    Some(next) => {
                        sum = next;
                    },
                    None => {
                        return false;
                    },
                },
                None => {
                    return false;
                },
            }
            i = i + 1;
        }
        true
    }
}

/// One value of the indicator.
#[derive(Debug, Clone, Copy, PartialEq)]
pub enum CvdPoint<R> {
    /// Classic mode: a cumulative delta, in atomic units of quantity.
    Delta(i128),
    /// EMA-ratio mode: a ratio of averages.
    Ratio(R),
}

/// Whether `points` has one point for each bar, and nothing else: the delta of
/// all bars up to and with that one.
pub open spec fn is_classic<R>(points: Map<u64, CvdPoint<R>>, bars: Seq<Bar>) -> bool {
    &&& forall|i: int|
        0 <= i < bars.len() ==> points.contains_key((#[trigger] bars[i]).key)
            && points[bars[i].key] == CvdPoint::<R>::Delta(run_total(bars, i + 1) as i128)
    &&& forall|k: u64| #[trigger]
        points.contains_key(k) ==> exists|i: int| 0 <= i < bars.len() && (#[trigger] bars[i]).key
            == k
}

/// Whether `advance`, given one bar after the other, can have gone through
/// `states` and given `ratios`.
pub open spec fn is_ema_run<S, R, F: Fn(u32, S, i128, i128) -> (S, R)>(
    advance: F,
    period: u32,
    bars: Seq<Bar>,
    states: Seq<S>,
    ratios: Seq<R>,
) -> bool {
    &&& states.len() == bars.len() + 1
    &&& ratios.len() == bars.len()
    &&& forall|i: int|
        0 <= i < bars.len() ==> call_ensures(
            advance,
            (period, states[i], (#[trigger] bars[i]).buy as i128, bars[i].sell as i128),
            (states[i + 1], ratios[i]),
        )
}

/// Whether `points` has one point for each bar, and nothing else: its ratio.
pub open spec fn is_ratios<R>(
    points: Map<u64, CvdPoint<R>>,
    bars: Seq<Bar>,
    ratios: Seq<R>,
) -> bool {
    &&& ratios.len() == bars.len()
    &&& forall|i: int|
        0 <= i < bars.len() ==> points.contains_key((#[trigger] bars[i]).key)
            && points[bars[i].key] == CvdPoint::Ratio(ratios[i])
    &&& forall|k: u64| #[trigger]
        points.contains_key(k) ==> exists|i: int| 0 <= i < bars.len() && (#[trigger] bars[i]).key
            == k
}

/// Whether `advance` has one result for each input.
pub open spec fn is_deterministic<S, R, F: Fn(u32, S, i128, i128) -> (S, R)>(advance: F) -> bool {
    forall|p: u32, s: S, b: i128, q: i128, x: (S, R), y: (S, R)| #[trigger]
        call_ensures(advance, (p, s, b, q), x) && #[trigger] call_ensures(
            advance,
            (p, s, b, q),
            y,
        ) ==> x == y
}

/// The greatest key below `t`, if there is one.
pub open spec fn key_before<V>(m: Map<u64, V>, t: u64) -> Option<u64> {
    if exists|k: u64| is_key_before(m, t, k) {
        Some(choose|k: u64| is_key_before(m, t, k))
    } else {
        None
    }
}

pub open spec fn is_key_before<V>(m: Map<u64, V>, t: u64, k: u64) -> bool {
    &&& m.contains_key(k)
    &&& k < t
    &&& forall|q: u64| #[trigger] m.contains_key(q) && q < t ==> q <= k
}

/// The cumulative delta that a point stands for.
pub open spec fn delta_of<R>(point: CvdPoint<R>) -> int {
    match point {
        CvdPoint::Delta(v) => v as int,
        CvdPoint::Ratio(_) => 0,
    }
}

/// The cumulative delta before the bar at `t`: zero before the first.
pub open spec fn delta_before<R>(points: Map<u64, CvdPoint<R>>, t: u64) -> int {
    match key_before(points, t) {
        Some(k) => delta_of(points[k]),
        None => 0,
    }
}

/// The cumulative delta before the bar number `start`: zero before the first, and
/// where there is no point for the bar in front of it.
pub open spec fn delta_before_bar<R>(points: Map<u64, CvdPoint<R>>, start: int) -> int {
    if 0 < start && points.contains_key((start - 1) as u64) {
        delta_of(points[(start - 1) as u64])
    } else {
        0
    }
}

/// The points after the live bar, which is the last, changed: its point is that
/// of the bar before it and its own delta, and no other point changes.
pub open spec fn with_live_bar<R>(points: Map<u64, CvdPoint<R>>, bars: Seq<Bar>) -> Map<
    u64,
    CvdPoint<R>,
> {
    points.insert(
        bars.last().key,
        CvdPoint::Delta(
            (delta_before(points, bars.last().key) + bars.last().delta()) as i128,
        ),
    )
}

/// The points after the bars from number `start` up to number `n` changed: each of
/// theirs is computed anew from the point before `start`, and no other point
/// changes.
pub open spec fn with_bars_from<R>(
    points: Map<u64, CvdPoint<R>>,
    bars: Seq<Bar>,
    start: int,
    n: int,
) -> Map<u64, CvdPoint<R>>
    decreases n,
{
    if n <= start || n <= 0 {
        points
    } else {
        with_bars_from(points, bars, start, n - 1).insert(
            bars[n - 1].key,
            CvdPoint::Delta(
                (delta_before_bar(points, start) + run_total(bars, n) - run_total(
                    bars,
                    start,
                )) as i128,
            ),
        )
    }
}

/// The number of the bar that was open before a batch of trades came in.
pub open spec fn open_bar(old_dp_len: usize) -> int {
    if old_dp_len == 0 {
        0
    } else {
        old_dp_len - 1
    }
}

/// The indicator. `S` is the state of the two averages of EMA-ratio mode and `R`
/// their ratio.
pub struct CvdIndicator<S, R> {
    /// Keyed by timestamp (TimeBased) or bar index (TickBased).
    pub data: BTreeMap<u64, CvdPoint<R>>,
    /// Running session cumulative delta, used only in classic mode.
    pub session_cvd: i128,
    /// Running averages, used only in EMA-ratio mode.
    pub ema: S,
    /// Current configuration.
    pub config: CvdConfig,
}

impl<S: Copy, R: Copy> CvdIndicator<S, R> {
    /// All points are of the current mode.
    pub open spec fn wf(self) -> bool {
        forall|k: u64| #[trigger]
            self.data@.contains_key(k) ==> (self.data@[k] is Ratio <==> self.config.ema_mode)
    }

    /// Whether the sums that trades put into `source` make necessary can be held.
    pub open spec fn trades_fit(self, old_dp_len: usize, source: PlotData) -> bool {
        !self.config.ema_mode ==> match source {
            PlotData::TimeBased { .. } => source.bars().len() > 0 ==> {
                let bar = source.bars().last();
                &&& fits_delta(bar.delta())
                &&& fits_delta(delta_before(self.data@, bar.key) + bar.delta())
            },
            PlotData::TickBased { .. } => run_fits(
                source.bars(),
                open_bar(old_dp_len),
                delta_before_bar(self.data@, open_bar(old_dp_len)),
            ),
        }
    }

    /// Whether this is what one more bar made of `before`, and `point` is its point.
    pub open spec fn has_advanced<F: Fn(u32, S, i128, i128) -> (S, R)>(
        self,
        before: CvdIndicator<S, R>,
        buy: int,
        sell: int,
        advance: F,
        point: CvdPoint<R>,
    ) -> bool {
        &&& self.data@ == before.data@
        &&& self.config == before.config
        &&& if before.config.ema_mode {
            &&& self.session_cvd == before.session_cvd
            &&& point is Ratio
            &&& call_ensures(
                advance,
                (before.config.ema_period, before.ema, buy as i128, sell as i128),
                (self.ema, point->Ratio_0),
            )
        } else {
            &&& self.ema == before.ema
            &&& self.session_cvd == before.session_cvd + buy - sell
            &&& point == CvdPoint::<R>::Delta(self.session_cvd)
        }
    }

    /// Whether everything was computed anew from `source`, beginning with averages in
    /// state `ema`.
    pub open spec fn is_rebuilt<F: Fn(u32, S, i128, i128) -> (S, R)>(
        self,
        source: PlotData,
        ema: S,
        advance: F,
    ) -> bool {
        if self.config.ema_mode {
            &&& self.session_cvd == 0
            &&& exists|states: Seq<S>, ratios: Seq<R>| #[trigger]
                is_ema_run(advance, self.config.ema_period, source.bars(), states, ratios)
                    && states[0] == ema && states.last() == self.ema && is_ratios(
                    self.data@,
                    source.bars(),
                    ratios,
                )
        } else {
            &&& is_classic(self.data@, source.bars())
            &&& self.session_cvd == run_total(source.bars(), source.bars().len() as int)
            &&& self.ema == ema
        }
    }

    /// Whether this is what trades that were put into `source` made of `before`, when
    /// there were `old_dp_len` bars.
    pub open spec fn is_updated<F: Fn(u32, S, i128, i128) -> (S, R)>(
        self,
        before: CvdIndicator<S, R>,
        old_dp_len: usize,
        source: PlotData,
        ema: S,
        advance: F,
    ) -> bool {
        &&& self.config == before.config
        &&& if self.config.ema_mode {
            self.is_rebuilt(source, ema, advance)
        } else {
            &&& self.ema == before.ema
            &&& match source {
                PlotData::TimeBased { .. } => if source.bars().len() == 0 {
                    &&& self.data@ == before.data@
                    &&& self.session_cvd == before.session_cvd
                } else {
                    let bar = source.bars().last();
                    &&& self.data@ == with_live_bar(before.data@, source.bars())
                    &&& self.session_cvd == delta_before(before.data@, bar.key) + bar.delta()
                },
                PlotData::TickBased { .. } => {
                    let bars = source.bars();
                    let start = open_bar(old_dp_len);
                    let base = delta_before_bar(before.data@, start);
                    &&& self.data@ == with_bars_from(
                        before.data@,
                        bars,
                        start,
                        bars.len() as int,
                    )
                    &&& self.session_cvd == base + (if start < bars.len() {
                        run_total(bars, bars.len() as int) - run_total(bars, start)
                    } else {
                        0
                    })
                },
            }
        }
    }

    /// Whether this is what a configuration made of `before`.
    pub open spec fn is_configured(self, before: CvdIndicator<S, R>, config: CvdConfig) -> bool {
        &&& self.config == config
        &&& self.data@ == (if before.config == config {
            before.data@
        } else {
            Map::<u64, CvdPoint<R>>::empty()
        })
        &&& self.session_cvd == before.session_cvd
        &&& self.ema == before.ema
    }

    /// An indicator without points, in classic mode. `ema` is the state of averages
    /// that have seen nothing.
    pub fn new(ema: S) -> (r: CvdIndicator<S, R>)
        ensures
            r.wf(),
            r.data@ == Map::<u64, CvdPoint<R>>::empty(),
            r.session_cvd == 0,
            r.ema == ema,
            r.config == (CvdConfig { ema_mode: false, ema_period: 14 }),
    {
        CvdIndicator { data: BTreeMap::new(), session_cvd: 0, ema, config: CvdConfig::default() }
    }

    /// Advance the running state by one bar's footprint and return the new
    /// indicator value.
    pub fn compute_bar<F: Fn(u32, S, i128, i128) -> (S, R)>(
        &mut self,
        footprint: &KlineTrades,
        advance: &F,
    ) -> (r: CvdPoint<R>)
        requires
            forall|p: u32, s: S, b: i128, q: i128| call_requires(*advance, (p, s, b, q)),
            !old(self).config.ema_mode ==> {
                &&& fits_delta(bought(footprint.trades@) - sold(footprint.trades@))
                &&& fits_delta(
                    old(self).session_cvd + bought(footprint.trades@) - sold(footprint.trades@),
                )
            },
        ensures
            final(self).has_advanced(
                *old(self),
                bought(footprint.trades@),
                sold(footprint.trades@),
                *advance,
                r,
            ),
    {
        let (buy, sell) = footprint.flow();
        if self.config.ema_mode {
            let (ema, ratio) = advance(self.config.ema_period, self.ema, buy, sell);
            self.ema = ema;
            CvdPoint::Ratio(ratio)
        } else {
            self.session_cvd = self.session_cvd + (buy - sell);
            CvdPoint::Delta(self.session_cvd)
        }
    }

    /// Computes all points anew. `ema` is the state of averages that have seen
    /// nothing.
    pub fn rebuild<F: Fn(u32, S, i128, i128) -> (S, R)>(
        &mut self,
        source: &PlotData,
        ema: S,
        advance: &F,
    )
        requires
            forall|p: u32, s: S, b: i128, q: i128| call_requires(*advance, (p, s, b, q)),
            !old(self).config.ema_mode ==> run_fits(source.bars(), 0, 0),
        ensures
            final(self).wf(),
            final(self).config == old(self).config,
            final(self).is_rebuilt(*source, ema, *advance),
    {
        let footprints = source.footprints();
        let ghost bars = source.bars();
        self.data.clear();
        self.session_cvd = 0;
        self.ema = ema;
        let ghost mut states: Seq<S> = seq![ema];
        let ghost mut ratios: Seq<R> = seq![];
        let mut i: usize = 0;
        while i < footprints.len()
            invariant
                i <= footprints.len(),
                self.config == old(self).config,
                bars == source.bars(),
                chronological(bars),
                footprints@.len() == bars.len(),
                forall|j: int|
                    0 <= j < bars.len() ==> bars[j] == Bar::of(
                        (#[trigger] footprints@[j]).0,
                        footprints@[j].1.trades@,
                    ),
                forall|p: u32, s: S, b: i128, q: i128| call_requires(*advance, (p, s, b, q)),
                !self.config.ema_mode ==> {
                    &&& run_fits(bars, 0, 0)
                    &&& is_classic(self.data@, bars.take(i as int))
                    &&& self.session_cvd == run_total(bars, i as int)
                    &&& self.ema == ema
                },
                self.config.ema_mode ==> {
                    &&& self.session_cvd == 0
                    &&& is_ema_run(
                        *advance,
                        self.config.ema_period,
                        bars.take(i as int),
                        states,
                        ratios,
                    )
                    &&& states[0] == ema
                    &&& states.last() == self.ema
                    &&& is_ratios(self.data@, bars.take(i as int), ratios)
                },
                self.wf(),
            decreases footprints.len() - i,
        {
            let (key, footprint) = footprints[i];
            assert(bars[i as int] == Bar::of(footprints@[i as int].0, footprint.trades@));
            let ghost before = bars.take(i as int);
            let ghost after = bars.take(i + 1);
            assert(after =~= before.push(bars[i as int]));
            assert(run_total(bars, i + 1) == run_total(bars, i as int) + bars[i as int].delta());
            let value = self.compute_bar(footprint, advance);
            let ghost points = self.data@;
            self.data.insert(key, value);
            proof {
                lemma_run_total_take(bars, i + 1, i + 1);
                if self.config.ema_mode {
                    states = states.push(self.ema);
                    ratios = ratios.push(value->Ratio_0);
                    lemma_point_pushed(points, value, before, bars[i as int]);
                    assert forall|j: int| 0 <= j < after.len() implies call_ensures(
                        *advance,
                        (
                            self.config.ema_period,
                            states[j],
                            (#[trigger] after[j]).buy as i128,
                            after[j].sell as i128,
                        ),
                        (states[j + 1], ratios[j]),
                    ) by {
                        if j < before.len() {
                            assert(after[j] == before[j]);
                        }
                    }
                    assert(is_ratios(self.data@, after, ratios)) by {
                        assert forall|j: int| 0 <= j < after.len() implies self.data@.contains_key(
                            (#[trigger] after[j]).key,
                        ) && self.data@[after[j].key] == CvdPoint::Ratio(ratios[j]) by {
                            if j < before.len() {
                                assert(after[j] == before[j]);
                                assert(bars[j].key < bars[i as int].key);
                            }
                        }
                    }
                } else {
                    lemma_point_pushed(points, value, before, bars[i as int]);
                    assert(is_classic(self.data@, after)) by {
                        assert forall|j: int| 0 <= j < after.len() implies self.data@.contains_key(
                            (#[trigger] after[j]).key,
                        ) && self.data@[after[j].key] == CvdPoint::<R>::Delta(
                            run_total(after, j + 1) as i128,
                        ) by {
                            lemma_run_total_take(bars, i + 1, j + 1);
                            if j < before.len() {
                                assert(after[j] == before[j]);
                                assert(bars[j].key < bars[i as int].key);
                                lemma_run_total_take(bars, i as int, j + 1);
                            }
                        }
                    }
                }
            }
            i = i + 1;
        }
        assert(bars.take(i as int) =~= bars);
    }

    /// Takes over a configuration. If it differs from the current one the points
    /// are gone: the caller must follow up with [`CvdIndicator::rebuild`]. Says
    /// whether it differs.
    pub fn set_cvd_config(&mut self, config: CvdConfig) -> (r: bool)
        requires
            old(self).wf(),
        ensures
            final(self).wf(),
            r == (old(self).config != config),
            final(self).is_configured(*old(self), config),
    {
        if self.config != config {
            self.config = config;
            self.data.clear();
            true
        } else {
            false
        }
    }

    /// The point of the last bar.
    pub fn last_value(&self) -> (r: Option<CvdPoint<R>>)
        ensures
            match r {
                Some(v) => exists|k: u64|
                    self.data@.contains_key(k) && (forall|q: u64| #[trigger]
                        self.data@.contains_key(q) ==> q <= k) && self.data@[k] == v,
                None => self.data@ == Map::<u64, CvdPoint<R>>::empty(),
            },
    {
        let entries = entries_by_time(&self.data);
        if entries.len() == 0 {
            assert(self.data@ =~= Map::<u64, CvdPoint<R>>::empty());
            return None;
        }
        let last = entries.len() - 1;
        proof {
            let k = entries@[last as int].0;
            assert(self.data@.contains_key(k));
            assert forall|q: u64| #[trigger] self.data@.contains_key(q) implies q <= k by {
                let i = choose|i: int| 0 <= i < entries@.len() && (#[trigger] entries@[i]).0 == q;
                if i < last {
                    assert(entries@[i].0 < entries@[last as int].0);
                }
            }
        }
        Some(*entries[last].1)
    }

    fn delta_before(&self, t: u64) -> (r: i128)
        requires
            self.wf(),
            !self.config.ema_mode,
        ensures
            r == delta_before(self.data@, t),
    {
        let entries = entries_by_time(&self.data);
        let mut i: usize = 0;
        while i < entries.len() && entries[i].0 < t
            invariant
                i <= entries.len(),
                increasing_times(entries@),
                lists_entries(entries@, self.data@),
                forall|j: int| 0 <= j < i ==> (#[trigger] entries@[j]).0 < t,
            decreases entries.len() - i,
        {
            i = i + 1;
        }
        if i == 0 {
            assert(key_before(self.data@, t) is None) by {
                assert forall|k: u64| !is_key_before(self.data@, t, k) by {
                    if self.data@.contains_key(k) && k < t {
                        let j = choose|j: int|
                            0 <= j < entries@.len() && (#[trigger] entries@[j]).0 == k;
                        if 0 < j {
                            assert(entries@[0].0 < entries@[j].0);
                        }
                    }
                }
            }
            return 0;
        }
        let ghost k = entries@[i - 1].0;
        assert(self.data@.contains_key(k));
        assert(is_key_before(self.data@, t, k)) by {
            assert forall|q: u64| #[trigger] self.data@.contains_key(q) && q < t implies q <= k by {
                let j = choose|j: int| 0 <= j < entries@.len() && (#[trigger] entries@[j]).0 == q;
                if i - 1 < j {
                    if i < j {
                        assert(entries@[i as int].0 < entries@[j].0);
                    }
                }
                if j < i - 1 {
                    assert(entries@[j].0 < entries@[i - 1].0);
                }
            }
        }
        assert(key_before(self.data@, t) == Some(k)) by {
            let c = choose|c: u64| is_key_before(self.data@, t, c);
            assert(is_key_before(self.data@, t, c));
            assert(c == k);
        }
        match entries[i - 1].1 {
            CvdPoint::Delta(v) => *v,
            CvdPoint::Ratio(_) => 0,
        }
    }

    fn delta_before_bar(&self, start: usize) -> (r: i128)
        requires
            self.wf(),
            !self.config.ema_mode,
        ensures
            r == delta_before_bar(self.data@, start as int),
    {
        if start == 0 {
            return 0;
        }
        let key = (start - 1) as u64;
        match self.data.get(&key) {
            Some(CvdPoint::Delta(v)) => *v,
            _ => 0,
        }
    }

    /// Whether [`CvdIndicator::rebuild`] can hold its sums.
    pub fn can_rebuild(&self, source: &PlotData) -> (r: bool)
        ensures
            r == (!self.config.ema_mode ==> run_fits(source.bars(), 0, 0)),
    {
        self.config.ema_mode || source.run_fits(0, 0)
    }

    /// Whether [`CvdIndicator::on_insert_trades`] can hold its sums.
    pub fn can_insert_trades(&self, old_dp_len: usize, source: &PlotData) -> (r: bool)
        requires
            self.wf(),
        ensures
            r == self.trades_fit(old_dp_len, *source),
    {
        if self.config.ema_mode {
            return true;
        }
        match source {
            PlotData::TimeBased { .. } => {
                let footprints = source.footprints();
                if footprints.len() == 0 {
                    return true;
                }
                let (latest, footprint) = footprints[footprints.len() - 1];
                assert(source.bars()[source.bars().len() - 1] == Bar::of(
                    footprints@[footprints@.len() - 1].0,
                    footprint.trades@,
                ));
                let prev = self.delta_before(latest);
                let (buy, sell) = footprint.flow();
                match buy.checked_sub(sell) {
                    Some(delta) => prev.checked_add(delta).is_some(),
                    None => false,
                }
            },
            PlotData::TickBased { .. } => {
                let start: usize = if old_dp_len == 0 {
                    0
                } else {
                    old_dp_len - 1
                };
                source.run_fits(start, self.delta_before_bar(start))
            },
        }
    }

    /// Takes up trades that were put into the bars. `old_dp_len` is how many bars
    /// there were before. In classic mode only the bars that the trades can have
    /// changed are computed anew: the last one of a time series, those from the
    /// formerly last one on otherwise. In EMA-ratio mode all are. Says whether
    /// anything has to be redrawn.
    pub fn on_insert_trades<F: Fn(u32, S, i128, i128) -> (S, R)>(
        &mut self,
        old_dp_len: usize,
        source: &PlotData,
        ema: S,
        advance: &F,
    ) -> (r: bool)
        requires
            old(self).wf(),
            forall|p: u32, s: S, b: i128, q: i128| call_requires(*advance, (p, s, b, q)),
            old(self).trades_fit(old_dp_len, *source),
        ensures
            final(self).wf(),
            final(self).config == old(self).config,
            r == (old(self).config.ema_mode || source is TickBased || source.bars().len() > 0),
            final(self).is_updated(*old(self), old_dp_len, *source, ema, *advance),
    {
        if self.config.ema_mode {
            self.rebuild(source, ema, advance);
            return true;
        }
        let footprints = source.footprints();
        let ghost bars = source.bars();
        match source {
            PlotData::TimeBased { .. } => {
                if footprints.len() == 0 {
                    return false;
                }
                let (latest, footprint) = footprints[footprints.len() - 1];
                assert(bars[bars.len() - 1] == Bar::of(
                    footprints@[footprints@.len() - 1].0,
                    footprint.trades@,
                ));
                let prev = self.delta_before(latest);
                let (buy, sell) = footprint.flow();
                self.session_cvd = prev + (buy - sell);
                self.data.insert(latest, CvdPoint::Delta(self.session_cvd));
            },
            PlotData::TickBased { .. } => {
                let start: usize = if old_dp_len == 0 {
                    0
                } else {
                    old_dp_len - 1
                };
                let ghost points = self.data@;
                self.session_cvd = self.delta_before_bar(start);
                let mut i: usize = start;
                while i < footprints.len()
                    invariant
                        start == open_bar(old_dp_len),
                        start <= i,
                        i <= footprints.len() || i == start,
                        self.config == old(self).config,
                        !self.config.ema_mode,
                        self.ema == old(self).ema,
                        self.wf(),
                        bars == source.bars(),
                        footprints@.len() == bars.len(),
                        forall|j: int|
                            0 <= j < bars.len() ==> bars[j] == Bar::of(
                                (#[trigger] footprints@[j]).0,
                                footprints@[j].1.trades@,
                            ),
                        run_fits(bars, start as int, delta_before_bar(points, start as int)),
                        self.data@ == with_bars_from(points, bars, start as int, i as int),
                        self.session_cvd == delta_before_bar(points, start as int) + run_total(
                            bars,
                            i as int,
                        ) - run_total(bars, start as int),
                    decreases footprints.len() - i,
                {
                    let (key, footprint) = footprints[i];
                    assert(bars[i as int] == Bar::of(footprints@[i as int].0, footprint.trades@));
                    assert(run_total(bars, i + 1) == run_total(bars, i as int)
                        + bars[i as int].delta());
                    let (buy, sell) = footprint.flow();
                    assert(fits_delta(bars[i as int].delta()));
                    self.session_cvd = self.session_cvd + (buy - sell);
                    self.data.insert(key, CvdPoint::Delta(self.session_cvd));
                    i = i + 1;
                }
            },
        }
        true
    }
}

/// The sum of the first bars does not depend on the later ones.
proof fn lemma_run_total_take(bars: Seq<Bar>, m: int, n: int)
    requires
        0 <= n <= m <= bars.len(),
    ensures
        run_total(bars.take(m), n) == run_total(bars, n),
    decreases n,
{
    if n > 0 {
        lemma_run_total_take(bars, m, n - 1);
    }
}

/// A point for one more bar: every point still belongs to a bar.
proof fn lemma_point_pushed<R>(
    points: Map<u64, CvdPoint<R>>,
    value: CvdPoint<R>,
    bars: Seq<Bar>,
    bar: Bar,
)
    requires
        forall|k: u64| #[trigger]
            points.contains_key(k) ==> exists|i: int| 0 <= i < bars.len() && (
            #[trigger] bars[i]).key == k,
    ensures
        forall|k: u64| #[trigger]
            points.insert(bar.key, value).contains_key(k) ==> exists|i: int|
                0 <= i < bars.push(bar).len() && (#[trigger] bars.push(bar)[i]).key == k,
{
    assert forall|k: u64| #[trigger]
        points.insert(bar.key, value).contains_key(k) implies exists|i: int|
        0 <= i < bars.push(bar).len() && (#[trigger] bars.push(bar)[i]).key == k by {
        if k == bar.key {
            assert(bars.push(bar)[bars.len() as int].key == k);
        } else {
            assert(points.contains_key(k));
            let i = choose|i: int| 0 <= i < bars.len() && (#[trigger] bars[i]).key == k;
            assert(bars.push(bar)[i].key == k);
        }
    }
}

/// Whether only the last bar is new or has changed.
pub open spec fn only_last_changed(before: Seq<Bar>, after: Seq<Bar>) -> bool {
    &&& after.len() > 0
    &&& before == after.drop_last() || (before.len() == after.len() && before.drop_last()
        == after.drop_last() && before.last().key == after.last().key)
}

proof fn lemma_head_unchanged(before: Seq<Bar>, after: Seq<Bar>)
    requires
        only_last_changed(before, after),
    ensures
        after.len() - 1 <= before.len() <= after.len(),
        forall|i: int| 0 <= i < after.len() - 1 ==> before[i] == #[trigger] after[i],
        forall|i: int| 0 <= i < before.len() ==> (#[trigger] before[i]).key == after[i].key,
        forall|i: int|
            0 <= i < after.len() ==> #[trigger] run_total(before, i) == run_total(after, i),
{
    let n = after.len() - 1;
    let head = after.drop_last();
    assert forall|i: int| 0 <= i < n implies before[i] == #[trigger] after[i] by {
        assert(head[i] == after[i]);
        if before.len() == after.len() {
            assert(before.drop_last()[i] == before[i]);
        }
    }
    assert forall|i: int| 0 <= i < before.len() implies (#[trigger] before[i]).key
        == after[i].key by {
        if i < n {
            assert(before[i] == after[i]);
        }
    }
    assert forall|i: int| 0 <= i < after.len() implies #[trigger] run_total(before, i)
        == run_total(after, i) by {
        lemma_run_total_same(before, after, i);
    }
}

/// A key below `t` that no other key exceeds there is the one before `t`.
proof fn lemma_key_before<V>(m: Map<u64, V>, t: u64, k: u64)
    requires
        is_key_before(m, t, k),
    ensures
        key_before(m, t) == Some(k),
{
    let c = choose|c: u64| is_key_before(m, t, c);
    assert(is_key_before(m, t, c));
    assert(c == k);
}

/// The point before the last bar is the delta of all bars before it.
proof fn lemma_delta_before_last<R>(
    points: Map<u64, CvdPoint<R>>,
    before: Seq<Bar>,
    after: Seq<Bar>,
)
    requires
        is_classic(points, before),
        chronological(before),
        chronological(after),
        only_last_changed(before, after),
        run_fits(after, 0, 0),
    ensures
        delta_before(points, after.last().key) == run_total(after, after.len() - 1),
{
    let n = after.len() - 1;
    let t = after[n].key;
    lemma_head_unchanged(before, after);
    if n == 0 {
        assert forall|k: u64| !is_key_before(points, t, k) by {
            if points.contains_key(k) {
                let i = choose|i: int| 0 <= i < before.len() && (#[trigger] before[i]).key == k;
            }
        }
    } else {
        let k = after[n - 1].key;
        assert(before[n - 1].key == k);
        assert(after[n - 1].key < after[n].key);
        assert(is_key_before(points, t, k)) by {
            assert forall|q: u64| #[trigger] points.contains_key(q) && q < t implies q <= k by {
                let i = choose|i: int| 0 <= i < before.len() && (#[trigger] before[i]).key == q;
                if i < n - 1 {
                    assert(before[i].key < before[n - 1].key);
                }
            }
        }
        lemma_key_before(points, t, k);
        assert(points[k] == CvdPoint::<R>::Delta(run_total(before, n) as i128));
        assert(run_total(before, n) == run_total(after, n));
        assert(fits_delta(after[n - 1].delta()));
    }
}

/// Updating the live bar alone gives what computing all points anew gives, if
/// the points were right for the bars as they were and only the last bar is new
/// or has changed.
pub proof fn law_live_bar_is_rebuild<R>(
    points: Map<u64, CvdPoint<R>>,
    before: Seq<Bar>,
    after: Seq<Bar>,
)
    requires
        is_classic(points, before),
        chronological(before),
        chronological(after),
        only_last_changed(before, after),
        run_fits(after, 0, 0),
    ensures
        is_classic(with_live_bar(points, after), after),
        delta_before(points, after.last().key) + after.last().delta() == run_total(
            after,
            after.len() as int,
        ),
{
    let n = after.len() - 1;
    lemma_delta_before_last(points, before, after);
    lemma_head_unchanged(before, after);
    let result = with_live_bar(points, after);
    assert forall|i: int| 0 <= i < after.len() implies result.contains_key(
        (#[trigger] after[i]).key,
    ) && result[after[i].key] == CvdPoint::<R>::Delta(run_total(after, i + 1) as i128) by {
        if i < n {
            assert(before[i] == after[i]);
            assert(after[i].key < after[n].key);
            assert(run_total(before, i + 1) == run_total(after, i + 1));
        }
    }
    assert forall|k: u64| #[trigger] result.contains_key(k) implies exists|i: int|
        0 <= i < after.len() && (#[trigger] after[i]).key == k by {
        if k == after[n].key {
        } else {
            assert(points.contains_key(k));
            let i = choose|i: int| 0 <= i < before.len() && (#[trigger] before[i]).key == k;
            assert(after[i].key == k);
        }
    }
}

/// Computing the points from the formerly open bar on gives what computing all
/// points anew gives, if the points were right for the bars as they were and no
/// bar before the open one has changed.
pub proof fn law_open_bars_are_rebuild<R>(
    points: Map<u64, CvdPoint<R>>,
    before: Seq<Bar>,
    after: Seq<Bar>,
    old_dp_len: usize,
)
    requires
        is_classic(points, before),
        forall|i: int| 0 <= i < before.len() ==> (#[trigger] before[i]).key == i,
        forall|i: int| 0 <= i < after.len() ==> (#[trigger] after[i]).key == i,
        before.len() == old_dp_len,
        before.len() <= after.len(),
        after.len() <= u64::MAX,
        before.take(open_bar(old_dp_len)) == after.take(open_bar(old_dp_len)),
        run_fits(after, 0, 0),
    ensures
        is_classic(
            with_bars_from(points, after, open_bar(old_dp_len), after.len() as int),
            after,
        ),
        delta_before_bar(points, open_bar(old_dp_len)) == run_total(after, open_bar(old_dp_len)),
{
    let start = open_bar(old_dp_len);
    assert forall|i: int| 0 <= i < start implies before[i] == #[trigger] after[i] by {
        assert(before.take(start)[i] == after.take(start)[i]);
    }
    assert forall|i: int| 0 <= i <= start implies #[trigger] run_total(before, i) == run_total(
        after,
        i,
    ) by {
        lemma_run_total_same(before, after, i);
    }
    if start > 0 {
        assert(before[start - 1].key == (start - 1) as u64);
        assert(points.contains_key(before[start - 1].key));
        assert(run_total(before, start) == run_total(after, start));
        assert(fits_delta(after[start - 1].delta()));
    }
    lemma_bars_from(points, before, after, start, after.len() as int);
    let result = with_bars_from(points, after, start, after.len() as int);
    assert forall|k: u64| #[trigger] result.contains_key(k) implies exists|i: int|
        0 <= i < after.len() && (#[trigger] after[i]).key == k by {
        assert(k < after.len());
        assert(after[k as int].key == k);
    }
}

proof fn lemma_bars_from<R>(
    points: Map<u64, CvdPoint<R>>,
    before: Seq<Bar>,
    after: Seq<Bar>,
    start: int,
    n: int,
)
    requires
        is_classic(points, before),
        forall|i: int| 0 <= i < before.len() ==> (#[trigger] before[i]).key == i,
        forall|i: int| 0 <= i < after.len() ==> (#[trigger] after[i]).key == i,
        0 <= start <= before.len() <= start + 1,
        before.len() <= after.len() <= u64::MAX,
        start <= n <= after.len(),
        forall|i: int| 0 <= i <= start ==> #[trigger] run_total(before, i) == run_total(after, i),
        delta_before_bar(points, start) == run_total(after, start),
    ensures
        ({
            let result = with_bars_from(points, after, start, n);
            &&& forall|i: int|
                0 <= i < n ==> result.contains_key((#[trigger] after[i]).key)
                    && result[after[i].key] == CvdPoint::<R>::Delta(
                    run_total(after, i + 1) as i128,
                )
            &&& forall|k: u64| #[trigger] result.contains_key(k) ==> k < n || k < before.len()
        }),
    decreases n,
{
    if n <= start {
        assert forall|i: int| 0 <= i < n implies points.contains_key((#[trigger] after[i]).key)
            && points[after[i].key] == CvdPoint::<R>::Delta(run_total(after, i + 1) as i128) by {
            assert(before[i].key == after[i].key);
            assert(run_total(before, i + 1) == run_total(after, i + 1));
        }
        assert forall|k: u64| #[trigger] points.contains_key(k) implies k < before.len() by {
            let i = choose|i: int| 0 <= i < before.len() && (#[trigger] before[i]).key == k;
        }
    } else {
        lemma_bars_from(points, before, after, start, n - 1);
    }
}

proof fn lemma_run_total_same(a: Seq<Bar>, b: Seq<Bar>, n: int)
    requires
        0 <= n <= a.len(),
        n <= b.len(),
        forall|i: int| 0 <= i < n ==> a[i] == #[trigger] b[i],
    ensures
        run_total(a, n) == run_total(b, n),
    decreases n,
{
    if n > 0 {
        lemma_run_total_same(a, b, n - 1);
    }
}

/// A buy raises the delta of its bar by its quantity and a sell lowers it by as much,
/// whichever price bin the trade goes to.
pub proof fn law_trade_moves_delta(
    time: u64,
    m: Map<i64, GroupedTrades>,
    bin: i64,
    trade: Trade,
)
    requires
        m.dom().finite(),
        bin_has_room(m, bin, trade),
    ensures
        Bar::of(time, bins_with(m, bin, trade)).delta() == Bar::of(time, m).delta() + (
        if trade.is_sell {
            -trade.qty.units
        } else {
            trade.qty.units as int
        }),
{
    law_trade_is_conserved(m, bin, trade);
}

/// Bars have only one list of classic points.
proof fn lemma_classic_unique<R>(
    a: Map<u64, CvdPoint<R>>,
    b: Map<u64, CvdPoint<R>>,
    bars: Seq<Bar>,
)
    requires
        is_classic(a, bars),
        is_classic(b, bars),
    ensures
        a == b,
{
    assert forall|k: u64| a.contains_key(k) <==> b.contains_key(k) by {
        if a.contains_key(k) {
            let i = choose|i: int| 0 <= i < bars.len() && (#[trigger] bars[i]).key == k;
            assert(b.contains_key(bars[i].key));
        }
        if b.contains_key(k) {
            let i = choose|i: int| 0 <= i < bars.len() && (#[trigger] bars[i]).key == k;
            assert(a.contains_key(bars[i].key));
        }
    }
    assert forall|k: u64| #[trigger] a.contains_key(k) implies a[k] == b[k] by {
        let i = choose|i: int| 0 <= i < bars.len() && (#[trigger] bars[i]).key == k;
        assert(a[bars[i].key] == b[bars[i].key]);
    }
    assert(a =~= b);
}

/// Bars and ratios have only one list of points.
proof fn lemma_ratios_unique<R>(
    a: Map<u64, CvdPoint<R>>,
    b: Map<u64, CvdPoint<R>>,
    bars: Seq<Bar>,
    ratios: Seq<R>,
)
    requires
        is_ratios(a, bars, ratios),
        is_ratios(b, bars, ratios),
    ensures
        a == b,
{
    assert forall|k: u64| a.contains_key(k) <==> b.contains_key(k) by {
        if a.contains_key(k) {
            let i = choose|i: int| 0 <= i < bars.len() && (#[trigger] bars[i]).key == k;
            assert(b.contains_key(bars[i].key));
        }
        if b.contains_key(k) {
            let i = choose|i: int| 0 <= i < bars.len() && (#[trigger] bars[i]).key == k;
            assert(a.contains_key(bars[i].key));
        }
    }
    assert forall|k: u64| #[trigger] a.contains_key(k) implies a[k] == b[k] by {
        let i = choose|i: int| 0 <= i < bars.len() && (#[trigger] bars[i]).key == k;
        assert(a[bars[i].key] == b[bars[i].key]);
    }
    assert(a =~= b);
}

/// Where `advance` has one result for each input, so has a run of it.
proof fn lemma_run_unique<S, R, F: Fn(u32, S, i128, i128) -> (S, R)>(
    advance: F,
    period: u32,
    bars: Seq<Bar>,
    states: Seq<S>,
    ratios: Seq<R>,
    other_states: Seq<S>,
    other_ratios: Seq<R>,
    n: int,
)
    requires
        is_deterministic(advance),
        is_ema_run(advance, period, bars, states, ratios),
        is_ema_run(advance, period, bars, other_states, other_ratios),
        states[0] == other_states[0],
        0 <= n <= bars.len(),
    ensures
        forall|i: int| 0 <= i <= n ==> #[trigger] states[i] == other_states[i],
        forall|i: int| 0 <= i < n ==> #[trigger] ratios[i] == other_ratios[i],
    decreases n,
{
    if n > 0 {
        let m = n - 1;
        lemma_run_unique(
            advance,
            period,
            bars,
            states,
            ratios,
            other_states,
            other_ratios,
            m,
        );
        assert(states[m] == other_states[m]);
        let bar = bars[m];
        let args = (period, states[m], bar.buy as i128, bar.sell as i128);
        assert(call_ensures(advance, args, (states[m + 1], ratios[m])));
        assert(call_ensures(advance, args, (other_states[m + 1], other_ratios[m])));
        assert((states[m + 1], ratios[m]) == (other_states[m + 1], other_ratios[m]));
    }
}

/// What a rebuild gives depends on configuration, source and first state of the averages
/// alone: whatever two indicators held before, they agree afterwards, and so does one
/// that is rebuilt twice. In EMA-ratio mode this takes averages that have one result for
/// each input.
pub proof fn law_rebuild_is_determined<S: Copy, R: Copy, F: Fn(u32, S, i128, i128) -> (S, R)>(
    a: CvdIndicator<S, R>,
    b: CvdIndicator<S, R>,
    source: PlotData,
    ema: S,
    advance: F,
)
    requires
        a.config == b.config,
        a.is_rebuilt(source, ema, advance),
        b.is_rebuilt(source, ema, advance),
        a.config.ema_mode ==> is_deterministic(advance),
    ensures
        a.data@ == b.data@,
        a.session_cvd == b.session_cvd,
        a.ema == b.ema,
{
    let bars = source.bars();
    if a.config.ema_mode {
        let period = a.config.ema_period;
        let (states, ratios) = choose|states: Seq<S>, ratios: Seq<R>| #[trigger]
            is_ema_run(advance, period, bars, states, ratios) && states[0] == ema && states.last()
                == a.ema && is_ratios(a.data@, bars, ratios);
        let (other_states, other_ratios) = choose|states: Seq<S>, ratios: Seq<R>| #[trigger]
            is_ema_run(advance, period, bars, states, ratios) && states[0] == ema && states.last()
                == b.ema && is_ratios(b.data@, bars, ratios);
        lemma_run_unique(
            advance,
            period,
            bars,
            states,
            ratios,
            other_states,
            other_ratios,
            bars.len() as int,
        );
        assert(ratios =~= other_ratios);
        assert(states[bars.len() as int] == other_states[bars.len() as int]);
        lemma_ratios_unique(a.data@, b.data@, bars, ratios);
    } else {
        lemma_classic_unique(a.data@, b.data@, bars);
    }
}

/// In EMA-ratio mode, taking up trades gives what a rebuild gives, whatever was there
/// before.
pub proof fn law_ratio_update_is_rebuild<S: Copy, R: Copy, F: Fn(u32, S, i128, i128) -> (S, R)>(
    before: CvdIndicator<S, R>,
    updated: CvdIndicator<S, R>,
    rebuilt: CvdIndicator<S, R>,
    old_dp_len: usize,
    source: PlotData,
    ema: S,
    advance: F,
)
    requires
        before.config.ema_mode,
        is_deterministic(advance),
        updated.is_updated(before, old_dp_len, source, ema, advance),
        rebuilt.config == before.config,
        rebuilt.is_rebuilt(source, ema, advance),
    ensures
        updated.data@ == rebuilt.data@,
        updated.session_cvd == rebuilt.session_cvd,
        updated.ema == rebuilt.ema,
{
    law_rebuild_is_determined(updated, rebuilt, source, ema, advance);
}

/// After another configuration no point of the former one is left, and a rebuild that
/// follows gives what it gives on a fresh indicator with that configuration.
pub proof fn law_configuration_starts_afresh<
    S: Copy,
    R: Copy,
    F: Fn(u32, S, i128, i128) -> (S, R),
>(
    before: CvdIndicator<S, R>,
    configured: CvdIndicator<S, R>,
    rebuilt: CvdIndicator<S, R>,
    fresh: CvdIndicator<S, R>,
    config: CvdConfig,
    source: PlotData,
    ema: S,
    advance: F,
)
    requires
        configured.is_configured(before, config),
        rebuilt.config == configured.config,
        rebuilt.is_rebuilt(source, ema, advance),
        fresh.config == config,
        fresh.is_rebuilt(source, ema, advance),
        config.ema_mode ==> is_deterministic(advance),
    ensures
        before.config != config ==> configured.data@ == Map::<u64, CvdPoint<R>>::empty(),
        before.config == config ==> configured.data@ == before.data@,
        rebuilt.data@ == fresh.data@,
        rebuilt.session_cvd == fresh.session_cvd,
        rebuilt.ema == fresh.ema,
{
    law_rebuild_is_determined(rebuilt, fresh, source, ema, advance);
}

/// The bars of equal trade count are keyed by their position.
proof fn lemma_tick_keys(source: PlotData)
    requires
        source is TickBased,
    ensures
        forall|i: int| 0 <= i < source.bars().len() ==> (#[trigger] source.bars()[i]).key == i,
{
    if let PlotData::TickBased { datapoints } = source {
        assert(datapoints@.len() == datapoints.len());
    }
}

/// Points that were computed from number `start` on are as they are computed, and those
/// before stay.
proof fn lemma_points_from<R>(
    points: Map<u64, CvdPoint<R>>,
    bars: Seq<Bar>,
    start: int,
    n: int,
    key: u64,
)
    requires
        0 <= start,
        n <= bars.len(),
        forall|i: int| 0 <= i < bars.len() ==> (#[trigger] bars[i]).key == i,
    ensures
        ({
            let result = with_bars_from(points, bars, start, n);
            if start <= key < n {
                result.contains_key(key) && result[key] == CvdPoint::<R>::Delta(
                    (delta_before_bar(points, start) + run_total(bars, key + 1) - run_total(
                        bars,
                        start,
                    )) as i128,
                )
            } else {
                result.contains_key(key) == points.contains_key(key) && result[key] == points[key]
            }
        }),
    decreases n,
{
    if n > start && n > 0 {
        assert(bars[n - 1].key == n - 1);
        lemma_points_from(points, bars, start, n - 1, key);
    }
}

/// Computing points from number `start` on a second time changes nothing.
proof fn lemma_bars_from_twice<R>(
    points: Map<u64, CvdPoint<R>>,
    bars: Seq<Bar>,
    start: int,
    n: int,
)
    requires
        0 <= start,
        0 <= n <= bars.len(),
        forall|i: int| 0 <= i < bars.len() ==> (#[trigger] bars[i]).key == i,
    ensures
        ({
            let once = with_bars_from(points, bars, start, bars.len() as int);
            &&& with_bars_from(once, bars, start, n) == once
            &&& delta_before_bar(once, start) == delta_before_bar(points, start)
        }),
    decreases n,
{
    let once = with_bars_from(points, bars, start, bars.len() as int);
    assert(delta_before_bar(once, start) == delta_before_bar(points, start)) by {
        if start > 0 {
            lemma_points_from(points, bars, start, bars.len() as int, (start - 1) as u64);
        }
    }
    if n > start && n > 0 {
        lemma_bars_from_twice(points, bars, start, n - 1);
        let key = bars[n - 1].key;
        assert(key == n - 1);
        lemma_points_from(points, bars, start, bars.len() as int, key);
        assert(with_bars_from(once, bars, start, n) =~= once);
    }
}

/// Updating the live bar a second time changes nothing.
proof fn lemma_live_bar_twice<R>(points: Map<u64, CvdPoint<R>>, bars: Seq<Bar>)
    ensures
        ({
            let once = with_live_bar(points, bars);
            &&& delta_before(once, bars.last().key) == delta_before(points, bars.last().key)
            &&& with_live_bar(once, bars) == once
        }),
{
    let t = bars.last().key;
    let once = with_live_bar(points, bars);
    assert forall|k: u64| is_key_before(once, t, k) implies is_key_before(points, t, k) by {
        assert forall|q: u64| #[trigger] points.contains_key(q) && q < t implies q <= k by {
            assert(once.contains_key(q));
        }
    }
    assert forall|k: u64| is_key_before(points, t, k) implies is_key_before(once, t, k) by {
        assert forall|q: u64| #[trigger] once.contains_key(q) && q < t implies q <= k by {
            assert(points.contains_key(q));
        }
    }
    if exists|k: u64| is_key_before(points, t, k) {
        let k = choose|k: u64| is_key_before(points, t, k);
        lemma_key_before(points, t, k);
        lemma_key_before(once, t, k);
    }
    assert(with_live_bar(once, bars) =~= once);
}

/// Trades that are already in the source are never counted twice: taking them up again
/// changes nothing, in either mode. In EMA-ratio mode this takes averages that have one
/// result for each input.
pub proof fn law_update_twice<S: Copy, R: Copy, F: Fn(u32, S, i128, i128) -> (S, R)>(
    before: CvdIndicator<S, R>,
    once: CvdIndicator<S, R>,
    twice: CvdIndicator<S, R>,
    old_dp_len: usize,
    source: PlotData,
    ema: S,
    advance: F,
)
    requires
        once.is_updated(before, old_dp_len, source, ema, advance),
        twice.is_updated(once, old_dp_len, source, ema, advance),
        before.config.ema_mode ==> is_deterministic(advance),
    ensures
        twice.data@ == once.data@,
        twice.session_cvd == once.session_cvd,
        twice.ema == once.ema,
{
    let bars = source.bars();
    if before.config.ema_mode {
        law_rebuild_is_determined(once, twice, source, ema, advance);
    } else if source is TickBased {
        lemma_tick_keys(source);
        lemma_bars_from_twice(before.data@, bars, open_bar(old_dp_len), bars.len() as int);
    } else if bars.len() > 0 {
        lemma_live_bar_twice(before.data@, bars);
    }
}

/// The bars of a time series with keys below `t` can be listed.
proof fn lemma_series_exists(m: Map<u64, KlineDataPoint>, t: int) -> (bars: Seq<Bar>)
    requires
        0 <= t,
    ensures
        chronological(bars),
        forall|i: int|
            0 <= i < bars.len() ==> (#[trigger] bars[i]).key < t && m.contains_key(bars[i].key)
                && bars[i] == Bar::of(bars[i].key, m[bars[i].key].footprint.trades@),
        forall|k: u64| #[trigger]
            m.contains_key(k) && k < t ==> exists|i: int|
                0 <= i < bars.len() && (#[trigger] bars[i]).key == k,
    decreases t,
{
    if t == 0 {
        Seq::empty()
    } else {
        let head = lemma_series_exists(m, t - 1);
        let key = (t - 1) as u64;
        if t - 1 <= u64::MAX && m.contains_key(key) {
            let bars = head.push(Bar::of(key, m[key].footprint.trades@));
            assert forall|k: u64| #[trigger] m.contains_key(k) && k < t implies exists|i: int|
                0 <= i < bars.len() && (#[trigger] bars[i]).key == k by {
                if k == key {
                    assert(bars[head.len() as int].key == k);
                } else {
                    let i = choose|i: int| 0 <= i < head.len() && (#[trigger] head[i]).key == k;
                    assert(bars[i].key == k);
                }
            }
            assert forall|i: int, j: int| 0 <= i < j < bars.len() implies (
            #[trigger] bars[i]).key < (#[trigger] bars[j]).key by {
                assert(bars[i] == head[i]);
                if j < head.len() {
                    assert(bars[j] == head[j]);
                }
            }
            bars
        } else {
            assert forall|k: u64| #[trigger] m.contains_key(k) && k < t implies exists|i: int|
                0 <= i < head.len() && (#[trigger] head[i]).key == k by {
                assert(k < t - 1);
            }
            head
        }
    }
}

/// The bars of a time series: one for each of its times and no other, in order of time,
/// each with what was bought and sold in all price bins of its footprint.
pub proof fn law_bars_of_a_time_series(source: PlotData, datapoints: Map<u64, KlineDataPoint>)
    requires
        source matches PlotData::TimeBased { datapoints: d } && d@ == datapoints,
    ensures
        ({
            let bars = source.bars();
            &&& forall|i: int, j: int|
                0 <= i < j < bars.len() ==> (#[trigger] bars[i]).key < (#[trigger] bars[j]).key
            &&& forall|i: int|
                0 <= i < bars.len() ==> {
                    let key = (#[trigger] bars[i]).key;
                    &&& datapoints.contains_key(key)
                    &&& bars[i].buy == map_sum(
                        datapoints[key].footprint.trades@,
                        |g: GroupedTrades| g.buy_qty.units as int,
                    )
                    &&& bars[i].sell == map_sum(
                        datapoints[key].footprint.trades@,
                        |g: GroupedTrades| g.sell_qty.units as int,
                    )
                }
            &&& forall|k: u64| #[trigger]
                datapoints.contains_key(k) ==> exists|i: int|
                    0 <= i < bars.len() && (#[trigger] bars[i]).key == k
        }),
{
    let listed = lemma_series_exists(datapoints, u64::MAX + 1);
    assert(lists_series(listed, datapoints));
    assert(lists_series(source.bars(), datapoints));
    assert(buy_units() =~= (|g: GroupedTrades| g.buy_qty.units as int));
    assert(sell_units() =~= (|g: GroupedTrades| g.sell_qty.units as int));
    let bars = source.bars();
    assert forall|i: int| 0 <= i < bars.len() implies datapoints.contains_key(
        (#[trigger] bars[i]).key,
    ) && bars[i].buy == bought(datapoints[bars[i].key].footprint.trades@) && bars[i].sell == sold(
        datapoints[bars[i].key].footprint.trades@,
    ) by {
        assert(bars[i] == Bar::of(
            bars[i].key,
            datapoints[bars[i].key].footprint.trades@,
        ));
    }
}

/// The bars of equal trade count: in their order, keyed by position, each with what was
/// bought and sold in all price bins of its footprint.
pub proof fn law_bars_of_equal_count(source: PlotData, datapoints: Seq<KlineTrades>)
    requires
        source matches PlotData::TickBased { datapoints: d } && d@ == datapoints,
    ensures
        ({
            let bars = source.bars();
            &&& bars.len() == datapoints.len()
            &&& forall|i: int|
                0 <= i < bars.len() ==> {
                    &&& (#[trigger] bars[i]).key == i
                    &&& bars[i].buy == map_sum(
                        datapoints[i].trades@,
                        |g: GroupedTrades| g.buy_qty.units as int,
                    )
                    &&& bars[i].sell == map_sum(
                        datapoints[i].trades@,
                        |g: GroupedTrades| g.sell_qty.units as int,
                    )
                }
        }),
{
    lemma_tick_keys(source);
    assert(buy_units() =~= (|g: GroupedTrades| g.buy_qty.units as int));
    assert(sell_units() =~= (|g: GroupedTrades| g.sell_qty.units as int));
}

/// The bars of any source follow each other by key.
proof fn lemma_bars_chronological(source: PlotData)
    ensures
        chronological(source.bars()),
{
    match source {
        PlotData::TimeBased { datapoints } => {
            law_bars_of_a_time_series(source, datapoints@);
        },
        PlotData::TickBased { datapoints } => {
            lemma_tick_keys(source);
        },
    }
}

/// Running sums that start at zero can be held, all of them.
proof fn lemma_run_total_fits(bars: Seq<Bar>, n: int)
    requires
        run_fits(bars, 0, 0),
        0 <= n <= bars.len(),
    ensures
        fits_delta(run_total(bars, n)),
{
    if n > 0 {
        assert(fits_delta(bars[n - 1].delta()));
    }
}

/// In classic mode a rebuilt indicator has a point for each bar and no other: what the
/// point before it says, and what was bought less what was sold in the bar. The session
/// stands where the last point stands.
pub proof fn law_classic_points_accumulate<
    S: Copy,
    R: Copy,
    F: Fn(u32, S, i128, i128) -> (S, R),
>(
    indicator: CvdIndicator<S, R>,
    source: PlotData,
    ema: S,
    advance: F,
    i: int,
)
    requires
        !indicator.config.ema_mode,
        indicator.is_rebuilt(source, ema, advance),
        run_fits(source.bars(), 0, 0),
        0 <= i < source.bars().len(),
    ensures
        ({
            let bars = source.bars();
            let points = indicator.data@;
            let before = if i == 0 {
                0
            } else {
                points[bars[i - 1].key]->Delta_0 as int
            };
            &&& points.contains_key(bars[i].key)
            &&& points[bars[i].key] matches CvdPoint::Delta(delta) && {
                &&& delta == before + bars[i].buy - bars[i].sell
                &&& i == bars.len() - 1 ==> indicator.session_cvd == delta
            }
            &&& forall|k: u64| #[trigger]
                points.contains_key(k) ==> exists|j: int|
                    0 <= j < bars.len() && (#[trigger] bars[j]).key == k
        }),
{
    let bars = source.bars();
    lemma_run_total_fits(bars, i);
    lemma_run_total_fits(bars, i + 1);
    assert(indicator.data@.contains_key(bars[i].key));
    if i > 0 {
        assert(indicator.data@.contains_key(bars[i - 1].key));
    }
}

/// Without bars a rebuilt indicator has no points, and its state is the first.
pub proof fn law_rebuild_of_nothing<S: Copy, R: Copy, F: Fn(u32, S, i128, i128) -> (S, R)>(
    indicator: CvdIndicator<S, R>,
    source: PlotData,
    ema: S,
    advance: F,
)
    requires
        indicator.is_rebuilt(source, ema, advance),
        source.bars().len() == 0,
    ensures
        indicator.data@ == Map::<u64, CvdPoint<R>>::empty(),
        indicator.session_cvd == 0,
        indicator.ema == ema,
{
    assert forall|k: u64| !indicator.data@.contains_key(k) by {
        if indicator.data@.contains_key(k) {
            let bars = source.bars();
            assert(exists|i: int| 0 <= i < bars.len() && (#[trigger] bars[i]).key == k);
        }
    }
    assert(indicator.data@ =~= Map::<u64, CvdPoint<R>>::empty());
}

/// A rebuild goes from bar to bar: with one more bar at the end, of either kind of source,
/// the points before stay, and the last one comes from the state after the others and this
/// bar alone. In EMA-ratio mode it is what `advance` gives for the configured period, that
/// state and what was bought and sold in the bar; in classic mode the session moves by
/// bought less sold quantity.
pub proof fn law_rebuild_goes_bar_by_bar<S: Copy, R: Copy, F: Fn(u32, S, i128, i128) -> (S, R)>(
    shorter: CvdIndicator<S, R>,
    longer: CvdIndicator<S, R>,
    short_source: PlotData,
    long_source: PlotData,
    ema: S,
    advance: F,
    bar: Bar,
)
    requires
        shorter.config == longer.config,
        shorter.is_rebuilt(short_source, ema, advance),
        longer.is_rebuilt(long_source, ema, advance),
        long_source.bars() == short_source.bars().push(bar),
        longer.config.ema_mode ==> is_deterministic(advance),
        !longer.config.ema_mode ==> run_fits(long_source.bars(), 0, 0),
    ensures
        longer.data@.contains_key(bar.key),
        forall|i: int|
            0 <= i < short_source.bars().len() ==> shorter.data@.contains_key(
                (#[trigger] short_source.bars()[i]).key,
            ) && longer.data@[short_source.bars()[i].key]
                == shorter.data@[short_source.bars()[i].key],
        longer.config.ema_mode ==> longer.session_cvd == 0 && (longer.data@[bar.key]
            matches CvdPoint::Ratio(ratio) && call_ensures(
            advance,
            (longer.config.ema_period, shorter.ema, bar.buy as i128, bar.sell as i128),
            (longer.ema, ratio),
        )),
        !longer.config.ema_mode ==> longer.ema == shorter.ema && longer.session_cvd
            == shorter.session_cvd + bar.buy - bar.sell && longer.data@[bar.key]
            == CvdPoint::<R>::Delta(longer.session_cvd),
{
    let some = short_source.bars();
    let all = long_source.bars();
    let n = some.len() as int;
    assert(all[n] == bar);
    assert(longer.data@.contains_key(all[n].key));
    assert(forall|i: int| 0 <= i < n ==> all[i] == #[trigger] some[i]);
    if longer.config.ema_mode {
        let period = longer.config.ema_period;
        let (states, ratios) = choose|states: Seq<S>, ratios: Seq<R>| #[trigger]
            is_ema_run(advance, period, some, states, ratios) && states[0] == ema && states.last()
                == shorter.ema && is_ratios(shorter.data@, some, ratios);
        let (more_states, more_ratios) = choose|states: Seq<S>, ratios: Seq<R>| #[trigger]
            is_ema_run(advance, period, all, states, ratios) && states[0] == ema && states.last()
                == longer.ema && is_ratios(longer.data@, all, ratios);
        let head_states = more_states.take(n + 1);
        let head_ratios = more_ratios.take(n);
        assert(is_ema_run(advance, period, some, head_states, head_ratios)) by {
            assert forall|i: int| 0 <= i < some.len() implies call_ensures(
                advance,
                (period, head_states[i], (#[trigger] some[i]).buy as i128, some[i].sell as i128),
                (head_states[i + 1], head_ratios[i]),
            ) by {
                assert(all[i] == some[i]);
            }
        }
        lemma_run_unique(
            advance,
            period,
            some,
            states,
            ratios,
            head_states,
            head_ratios,
            n,
        );
        assert(states[n] == head_states[n]);
        assert(call_ensures(
            advance,
            (period, more_states[n], all[n].buy as i128, all[n].sell as i128),
            (more_states[n + 1], more_ratios[n]),
        ));
        assert forall|i: int| 0 <= i < n implies shorter.data@.contains_key(
            (#[trigger] some[i]).key,
        ) && longer.data@[some[i].key] == shorter.data@[some[i].key] by {
            assert(all[i] == some[i]);
            assert(ratios[i] == head_ratios[i]);
        }
    } else {
        assert forall|i: int| 0 <= i <= n implies #[trigger] run_total(some, i) == run_total(
            all,
            i,
        ) by {
            lemma_run_total_same(some, all, i);
        }
        lemma_run_total_fits(all, n + 1);
        assert forall|i: int| 0 <= i < n implies shorter.data@.contains_key(
            (#[trigger] some[i]).key,
        ) && longer.data@[some[i].key] == shorter.data@[some[i].key] by {
            assert(all[i] == some[i]);
            assert(run_total(some, i + 1) == run_total(all, i + 1));
        }
        assert(run_total(some, n) == run_total(all, n));
    }
}

/// The kind of source does not matter: where bars have the same bought and sold quantities
/// in the same order, by time or by count, their points are the same one after the other,
/// and so is the state at the end.
pub proof fn law_sources_with_the_same_flow_agree<
    S: Copy,
    R: Copy,
    F: Fn(u32, S, i128, i128) -> (S, R),
>(
    a: CvdIndicator<S, R>,
    b: CvdIndicator<S, R>,
    source: PlotData,
    other: PlotData,
    ema: S,
    advance: F,
)
    requires
        a.config == b.config,
        a.is_rebuilt(source, ema, advance),
        b.is_rebuilt(other, ema, advance),
        source.bars().len() == other.bars().len(),
        forall|i: int|
            0 <= i < source.bars().len() ==> (#[trigger] source.bars()[i]).buy
                == other.bars()[i].buy && source.bars()[i].sell == other.bars()[i].sell,
        a.config.ema_mode ==> is_deterministic(advance),
    ensures
        forall|i: int|
            0 <= i < source.bars().len() ==> a.data@.contains_key((#[trigger] source.bars()[i]).key)
                && b.data@.contains_key(other.bars()[i].key) && a.data@[source.bars()[i].key]
                == b.data@[other.bars()[i].key],
        a.session_cvd == b.session_cvd,
        a.ema == b.ema,
{
    let bars = source.bars();
    let others = other.bars();
    let n = bars.len() as int;
    if a.config.ema_mode {
        let period = a.config.ema_period;
        let (states, ratios) = choose|states: Seq<S>, ratios: Seq<R>| #[trigger]
            is_ema_run(advance, period, bars, states, ratios) && states[0] == ema && states.last()
                == a.ema && is_ratios(a.data@, bars, ratios);
        let (other_states, other_ratios) = choose|states: Seq<S>, ratios: Seq<R>| #[trigger]
            is_ema_run(advance, period, others, states, ratios) && states[0] == ema
                && states.last() == b.ema && is_ratios(b.data@, others, ratios);
        assert(is_ema_run(advance, period, bars, other_states, other_ratios)) by {
            assert forall|i: int| 0 <= i < bars.len() implies call_ensures(
                advance,
                (period, other_states[i], (#[trigger] bars[i]).buy as i128, bars[i].sell as i128),
                (other_states[i + 1], other_ratios[i]),
            ) by {
                assert(others[i].buy == bars[i].buy);
            }
        }
        lemma_run_unique(
            advance,
            period,
            bars,
            states,
            ratios,
            other_states,
            other_ratios,
            n,
        );
        assert(states[n] == other_states[n]);
        assert forall|i: int| 0 <= i < n implies a.data@.contains_key((#[trigger] bars[i]).key)
            && b.data@.contains_key(others[i].key) && a.data@[bars[i].key]
            == b.data@[others[i].key] by {
            assert(b.data@.contains_key(others[i].key));
            assert(ratios[i] == other_ratios[i]);
        }
    } else {
        assert forall|i: int| 0 <= i <= n implies #[trigger] run_total(bars, i) == run_total(
            others,
            i,
        ) by {
            lemma_run_total_same_flow(bars, others, i);
        }
        assert forall|i: int| 0 <= i < n implies a.data@.contains_key((#[trigger] bars[i]).key)
            && b.data@.contains_key(others[i].key) && a.data@[bars[i].key]
            == b.data@[others[i].key] by {
            assert(b.data@.contains_key(others[i].key));
            assert(run_total(bars, i + 1) == run_total(others, i + 1));
        }
        assert(run_total(bars, n) == run_total(others, n));
    }
}

proof fn lemma_run_total_same_flow(a: Seq<Bar>, b: Seq<Bar>, n: int)
    requires
        0 <= n <= a.len(),
        a.len() == b.len(),
        forall|i: int|
            0 <= i < a.len() ==> (#[trigger] a[i]).buy == b[i].buy && a[i].sell == b[i].sell,
    ensures
        run_total(a, n) == run_total(b, n),
    decreases n,
{
    if n > 0 {
        lemma_run_total_same_flow(a, b, n - 1);
        assert(a[n - 1].buy == b[n - 1].buy);
    }
}

/// Taking up trades gives what a rebuild from the same source gives, if the indicator was
/// rebuilt before the trades came in and they changed only bars that were still open: of a
/// time series the last one, or one that is new; otherwise the formerly last one and those
/// after it.
pub proof fn law_update_is_rebuild<S: Copy, R: Copy, F: Fn(u32, S, i128, i128) -> (S, R)>(
    before: CvdIndicator<S, R>,
    updated: CvdIndicator<S, R>,
    rebuilt: CvdIndicator<S, R>,
    old_source: PlotData,
    source: PlotData,
    old_dp_len: usize,
    ema: S,
    advance: F,
)
    requires
        before.is_rebuilt(old_source, ema, advance),
        updated.is_updated(before, old_dp_len, source, ema, advance),
        rebuilt.config == before.config,
        rebuilt.is_rebuilt(source, ema, advance),
        before.config.ema_mode ==> is_deterministic(advance),
        !before.config.ema_mode ==> run_fits(source.bars(), 0, 0),
        source is TimeBased ==> only_last_changed(old_source.bars(), source.bars()),
        source is TickBased ==> {
            &&& old_source is TickBased
            &&& old_source.bars().len() == old_dp_len
            &&& old_dp_len <= source.bars().len()
            &&& forall|i: int|
                0 <= i < old_dp_len - 1 ==> old_source.bars()[i] == #[trigger] source.bars()[i]
        },
    ensures
        updated.data@ == rebuilt.data@,
        updated.session_cvd == rebuilt.session_cvd,
        updated.ema == rebuilt.ema,
{
    let old_bars = old_source.bars();
    let bars = source.bars();
    if before.config.ema_mode {
        law_rebuild_is_determined(updated, rebuilt, source, ema, advance);
    } else if source is TimeBased {
        lemma_bars_chronological(old_source);
        lemma_bars_chronological(source);
        law_live_bar_is_rebuild(before.data@, old_bars, bars);
        lemma_classic_unique(updated.data@, rebuilt.data@, bars);
    } else {
        lemma_tick_keys(old_source);
        lemma_tick_keys(source);
        if let PlotData::TickBased { datapoints } = source {
            assert(datapoints@.len() == datapoints.len());
        }
        let start = open_bar(old_dp_len);
        assert(old_bars.take(start) =~= bars.take(start));
        law_open_bars_are_rebuild(before.data@, old_bars, bars, old_dp_len);
        lemma_classic_unique(updated.data@, rebuilt.data@, bars);
    }
}

/// One bar after a rebuild gives what a rebuild with that bar gives: its point, the session
/// and the averages are those of the longer rebuild.
pub proof fn law_one_more_bar<S: Copy, R: Copy, F: Fn(u32, S, i128, i128) -> (S, R)>(
    shorter: CvdIndicator<S, R>,
    advanced: CvdIndicator<S, R>,
    longer: CvdIndicator<S, R>,
    point: CvdPoint<R>,
    short_source: PlotData,
    long_source: PlotData,
    ema: S,
    advance: F,
    bar: Bar,
)
    requires
        shorter.config == longer.config,
        shorter.is_rebuilt(short_source, ema, advance),
        advanced.has_advanced(shorter, bar.buy, bar.sell, advance, point),
        longer.is_rebuilt(long_source, ema, advance),
        long_source.bars() == short_source.bars().push(bar),
        longer.config.ema_mode ==> is_deterministic(advance),
        !longer.config.ema_mode ==> run_fits(long_source.bars(), 0, 0),
    ensures
        longer.data@.contains_key(bar.key),
        longer.data@[bar.key] == point,
        longer.session_cvd == advanced.session_cvd,
        longer.ema == advanced.ema,
        advanced.data@ == shorter.data@,
        advanced.config == shorter.config,
{
    law_rebuild_goes_bar_by_bar(
        shorter,
        longer,
        short_source,
        long_source,
        ema,
        advance,
        bar,
    );
    if longer.config.ema_mode {
        let args = (
            longer.config.ema_period,
            shorter.ema,
            bar.buy as i128,
            bar.sell as i128,
        );
        let ratio = longer.data@[bar.key]->Ratio_0;
        assert(call_ensures(advance, args, (longer.ema, ratio)));
        assert(call_ensures(advance, args, (advanced.ema, point->Ratio_0)));
        assert((longer.ema, ratio) == (advanced.ema, point->Ratio_0));
    }
}

/// Sums of bars can be held if no bar's delta exceeds a bound that can be added up over
/// all of them.
pub proof fn law_moderate_bars_fit(bars: Seq<Bar>, bound: int)
    requires
        0 <= bound,
        bound * bars.len() <= i128::MAX,
        forall|i: int|
            0 <= i < bars.len() ==> -bound <= (#[trigger] bars[i]).buy - bars[i].sell <= bound,
    ensures
        run_fits(bars, 0, 0),
{
    assert forall|i: int| 0 <= i < bars.len() implies fits_delta((#[trigger] bars[i]).delta())
        && fits_delta(0 + run_total(bars, i + 1) - run_total(bars, 0)) by {
        lemma_run_total_bound(bars, bound, i + 1);
        assert(bound * (i + 1) <= bound * bars.len()) by (nonlinear_arith)
            requires
                0 <= bound,
                i + 1 <= bars.len(),
        ;
        assert(bound <= bound * (i + 1)) by (nonlinear_arith)
            requires
                0 <= bound,
                0 <= i,
        ;
    }
}

proof fn lemma_run_total_bound(bars: Seq<Bar>, bound: int, n: int)
    requires
        0 <= bound,
        0 <= n <= bars.len(),
        forall|i: int|
            0 <= i < bars.len() ==> -bound <= (#[trigger] bars[i]).buy - bars[i].sell <= bound,
    ensures
        -(bound * n) <= run_total(bars, n) <= bound * n,
    decreases n,
{
    if n > 0 {
        lemma_run_total_bound(bars, bound, n - 1);
        assert(-bound <= bars[n - 1].buy - bars[n - 1].sell <= bound);
        assert(bound * (n - 1) + bound == bound * n) by (nonlinear_arith);
    }
}

/// Trades can be taken up wherever a rebuild can be made: if the indicator was rebuilt
/// before they came in and they changed only bars that were still open, no sum of the
/// update is too large unless one of the rebuild is.
pub proof fn law_update_fits_where_rebuild_does<
    S: Copy,
    R: Copy,
    F: Fn(u32, S, i128, i128) -> (S, R),
>(
    before: CvdIndicator<S, R>,
    old_source: PlotData,
    source: PlotData,
    old_dp_len: usize,
    ema: S,
    advance: F,
)
    requires
        before.is_rebuilt(old_source, ema, advance),
        !before.config.ema_mode ==> run_fits(source.bars(), 0, 0),
        source is TimeBased ==> only_last_changed(old_source.bars(), source.bars()),
        source is TickBased ==> {
            &&& old_source is TickBased
            &&& old_source.bars().len() == old_dp_len
            &&& old_dp_len <= source.bars().len()
            &&& forall|i: int|
                0 <= i < old_dp_len - 1 ==> old_source.bars()[i] == #[trigger] source.bars()[i]
        },
    ensures
        before.trades_fit(old_dp_len, source),
{
    let old_bars = old_source.bars();
    let bars = source.bars();
    if before.config.ema_mode {
    } else if source is TimeBased {
        lemma_bars_chronological(old_source);
        lemma_bars_chronological(source);
        law_live_bar_is_rebuild(before.data@, old_bars, bars);
        lemma_run_total_fits(bars, bars.len() as int);
        assert(fits_delta(bars[bars.len() - 1].delta()));
    } else {
        lemma_tick_keys(old_source);
        lemma_tick_keys(source);
        if let PlotData::TickBased { datapoints } = source {
            assert(datapoints@.len() == datapoints.len());
        }
        let start = open_bar(old_dp_len);
        assert(old_bars.take(start) =~= bars.take(start));
        law_open_bars_are_rebuild(before.data@, old_bars, bars, old_dp_len);
        assert forall|i: int| start <= i < bars.len() implies fits_delta(
            (#[trigger] bars[i]).delta(),
        ) && fits_delta(run_total(bars, start) + run_total(bars, i + 1) - run_total(bars, start)) by {
            lemma_run_total_fits(bars, i + 1);
        }
    }
}

} // verus!
