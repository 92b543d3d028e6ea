//! The price ladder: the order book and the recent trades around the spread.

use crate::book::{
    best, best_price_of, can_regroup, check_regroup, is_regrouped, law_levels_on_grid,
    lemma_best_exists, Depth, GroupedDepth, Side,
};
use crate::market::Trade;
use crate::trades::{
    can_group, check_group, keep_from, kept, law_retention, qty_at, TradeStore,
};
use crate::units::{fits, Price, PriceStep, Qty};
use std::collections::BTreeMap;
use vstd::prelude::*;

verus! {

/// Maximum interval between chase updates to consider them part of the same
/// chase, in milliseconds.
pub const CHASE_MIN_INTERVAL_MS: u64 = 200;

/// What stands to the right of the price column.
#[derive(Clone, Copy, Debug, PartialEq, Eq, Structural)]
pub enum ViewMode {
    /// Bought and sold quantity on either side of an axis.
    Original,
    /// A volume profile with sold and bought quantity stacked.
    StackedVP,
    /// A volume profile of the difference between them.
    DeltaVP,
}

/// How the ladder is set up by the user.
#[derive(Clone, Copy, Debug, PartialEq, Eq, Structural)]
pub struct LadderConfig {
    pub view_mode: ViewMode,
    pub show_spread: bool,
    pub show_chase_tracker: bool,
    pub show_trade_text: bool,
    pub cumulative_trades: bool,
    pub cumulative_orders: bool,
    /// How long trades are kept, in milliseconds.
    pub trade_retention_ms: u64,
    pub backfill_enabled: bool,
    /// How far back trades are requested, in milliseconds.
    pub backfill_lookback_ms: u64,
}

/// What the ladder reads of the ticker.
#[derive(Clone, Copy, Debug, PartialEq, Eq, Structural)]
pub struct TickerInfo {
    /// The smallest price increment of the market.
    pub min_ticksize: PriceStep,
    /// Whether order books of this market are grouped here rather than by the
    /// exchange.
    pub depth_client_aggr: bool,
}

/// What the ladder asks of its owner.
#[derive(Clone, Copy, Debug, PartialEq, Eq, Structural)]
pub enum Action {
    /// Fetch the trades since `from_ms`.
    RequestBackfill { ticker_info: TickerInfo, from_ms: u64 },
}

/// What is to be done with the two trackers of chased prices.
#[derive(Clone, Copy, Debug, PartialEq, Eq, Structural)]
pub enum ChaseUpdate {
    /// Feed them the best prices of this order book.
    Track { best_bid: Option<Price>, best_ask: Option<Price>, at_ms: u64, max_interval_ms: u64 },
    /// Make them forget.
    Reset,
}

/// What an order book led to.
#[derive(Clone, Copy, Debug, PartialEq, Eq, Structural)]
pub struct DepthOutcome {
    pub chase: ChaseUpdate,
    /// Whether what was drawn is stale beyond the order book itself.
    pub invalidated: bool,
}

/// What switching the chase tracker led to.
#[derive(Clone, Copy, Debug, PartialEq, Eq, Structural)]
pub enum ChaseSwitch {
    Unchanged,
    On,
    /// The trackers have to be reset.
    Off,
}

pub struct Ladder {
    pub ticker_info: TickerInfo,
    pub config: LadderConfig,
    /// When the ladder last changed, on the clock of its owner.
    pub last_tick: u64,
    pub step: PriceStep,
    pub last_exchange_ts_ms: Option<u64>,
    pub asks: GroupedDepth,
    pub bids: GroupedDepth,
    pub trades: TradeStore,
    /// The step that the next order book will be grouped by.
    pub pending_tick_size: Option<PriceStep>,
    /// The distance between best bid and best ask, before grouping.
    pub raw_price_spread: Option<Price>,
    pub backfill_done: bool,
}

/// Whether all bins lie on multiples of the step.
pub open spec fn on_grid(orders: Map<i64, Qty>, step: PriceStep) -> bool {
    forall|k: i64| #[trigger] orders.contains_key(k) ==> k as int % step.units as int == 0
}

/// The distance from the best bid to the best ask, where there are both.
pub open spec fn spread(best_bid: Option<Price>, best_ask: Option<Price>) -> Option<int> {
    match (best_bid, best_ask) {
        (Some(bid), Some(ask)) => Some(ask.units - bid.units),
        _ => None,
    }
}

pub open spec fn saturating_minus(a: u64, b: u64) -> u64 {
    if a < b {
        0
    } else {
        (a - b) as u64
    }
}

impl Ladder {
    /// Trades and orders are grouped by the current step.
    pub open spec fn wf(self) -> bool {
        &&& self.step.wf()
        &&& self.pending_tick_size matches Some(step) ==> step.wf()
        &&& self.trades.wf(self.step)
        &&& on_grid(self.asks.orders@, self.step)
        &&& on_grid(self.bids.orders@, self.step)
    }

    /// Whether a backfill is to be requested.
    pub open spec fn wants_backfill(self) -> bool {
        &&& self.config.backfill_enabled
        &&& !self.backfill_done
        &&& self.last_exchange_ts_ms is Some
    }

    /// The ladder after it has changed at `now`, with nothing asked for.
    pub open spec fn touched(self, now: u64) -> Ladder {
        Ladder { last_tick: now, ..self }
    }

    /// The ladder after something that is drawn has changed.
    pub open spec fn invalidated(self, now: Option<u64>) -> Ladder {
        Ladder {
            last_tick: match now {
                Some(tick) => tick,
                None => self.last_tick,
            },
            backfill_done: self.backfill_done || self.wants_backfill(),
            ..self
        }
    }

    /// What the ladder then asks for.
    pub open spec fn backfill_request(self, clock_ms: u64) -> Option<Action> {
        if self.wants_backfill() {
            Some(
                Action::RequestBackfill {
                    ticker_info: self.ticker_info,
                    from_ms: saturating_minus(clock_ms, self.config.backfill_lookback_ms),
                },
            )
        } else {
            None
        }
    }

    /// The step that the next order book is grouped by.
    pub open spec fn next_step(self) -> PriceStep {
        match self.pending_tick_size {
            Some(step) => step,
            None => self.step,
        }
    }

    /// The trades that are left after the next order book.
    pub open spec fn next_trades(self, update_t: u64, cleanup_due: bool) -> Seq<Trade> {
        if cleanup_due {
            kept(self.trades.raw@, keep_from(update_t, self.config.trade_retention_ms))
        } else {
            self.trades.raw@
        }
    }

    /// Whether everything that an order book leads to can be held.
    pub open spec fn depth_fits(self, depth: Depth, update_t: u64, cleanup_due: bool) -> bool {
        &&& can_group(self.trades.raw@, self.next_step())
        &&& can_group(self.next_trades(update_t, cleanup_due), self.next_step())
        &&& can_regroup(depth.asks@, Side::Ask, self.next_step())
        &&& can_regroup(depth.bids@, Side::Bid, self.next_step())
        &&& spread(best(depth.bids@, Side::Bid), best(depth.asks@, Side::Ask)) matches Some(d)
            ==> fits(d)
    }

    /// Whether this is what an order book made of `before`, with the given outcome.
    pub open spec fn has_taken(
        self,
        before: Ladder,
        outcome: DepthOutcome,
        depth: Depth,
        update_t: u64,
        cleanup_due: bool,
        now: u64,
    ) -> bool {
        let best_bid = best(depth.bids@, Side::Bid);
        let best_ask = best(depth.asks@, Side::Ask);
        &&& self.ticker_info == before.ticker_info
        &&& self.config == before.config
        &&& self.step == before.next_step()
        &&& self.pending_tick_size is None
        &&& self.last_exchange_ts_ms == Some(update_t)
        &&& is_regrouped(self.asks.orders@, depth.asks@, Side::Ask, before.next_step())
        &&& is_regrouped(self.bids.orders@, depth.bids@, Side::Bid, before.next_step())
        &&& self.trades.raw@ == before.next_trades(update_t, cleanup_due)
        &&& match (self.raw_price_spread, spread(best_bid, best_ask)) {
            (Some(price), Some(d)) => price.units == d,
            (None, None) => true,
            _ => false,
        }
        &&& outcome.chase == (if before.config.show_chase_tracker {
            ChaseUpdate::Track {
                best_bid,
                best_ask,
                at_ms: update_t,
                max_interval_ms: CHASE_MIN_INTERVAL_MS,
            }
        } else {
            ChaseUpdate::Reset
        })
        &&& outcome.invalidated == (self.trades.raw@.len() < before.trades.raw@.len())
        &&& self.last_tick == (if outcome.invalidated {
            now
        } else {
            before.last_tick
        })
        &&& self.backfill_done == before.backfill_done
    }

    /// A ladder without orders and trades. `default` is the configuration where none
    /// was saved.
    pub fn new(
        config: Option<LadderConfig>,
        default: LadderConfig,
        ticker_info: TickerInfo,
        step: PriceStep,
        now: u64,
    ) -> (r: Ladder)
        requires
            step.wf(),
        ensures
            r.wf(),
            r.config == (match config {
                Some(config) => config,
                None => default,
            }),
            r.ticker_info == ticker_info,
            r.last_tick == now,
            r.step == step,
            r.last_exchange_ts_ms is None,
            r.asks.orders@ == Map::<i64, Qty>::empty(),
            r.bids.orders@ == Map::<i64, Qty>::empty(),
            r.trades.raw@ == Seq::<Trade>::empty(),
            r.pending_tick_size is None,
            r.raw_price_spread is None,
            !r.backfill_done,
    {
        Ladder {
            ticker_info,
            config: match config {
                Some(config) => config,
                None => default,
            },
            last_tick: now,
            step,
            last_exchange_ts_ms: None,
            asks: GroupedDepth::new(),
            bids: GroupedDepth::new(),
            trades: TradeStore::new(),
            pending_tick_size: None,
            raw_price_spread: None,
            backfill_done: false,
        }
    }

    /// Whether there is nothing to draw: no orders and no trades, or only such as are
    /// about to be grouped anew.
    pub fn is_empty(&self) -> (r: bool)
        ensures
            r == (self.pending_tick_size is Some || (self.asks.orders@.is_empty()
                && self.bids.orders@.is_empty() && self.trades.raw@.len() == 0)),
    {
        if self.pending_tick_size.is_some() {
            return true;
        }
        self.grouped_asks().is_empty() && self.grouped_bids().is_empty() && self.trades.is_empty()
    }

    /// Whether [`Ladder::insert_trades`] can hold all sums.
    pub fn can_insert_trades(&self, buffer: &Vec<Trade>) -> (r: bool)
        requires
            self.wf(),
        ensures
            r == can_group(self.trades.raw@ + buffer@, self.step),
    {
        let mut all: Vec<Trade> = Vec::new();
        let mut i: usize = 0;
        while i < self.trades.raw.len()
            invariant
                i <= self.trades.raw.len(),
                all@ == self.trades.raw@.take(i as int),
            decreases self.trades.raw.len() - i,
        {
            all.push(self.trades.raw[i]);
            i = i + 1;
        }
        i = 0;
        while i < buffer.len()
            invariant
                i <= buffer.len(),
                all@ == self.trades.raw@ + buffer@.take(i as int),
            decreases buffer.len() - i,
        {
            all.push(buffer[i]);
            i = i + 1;
        }
        assert(all@ =~= self.trades.raw@ + buffer@);
        check_group(&all, self.step)
    }

    /// Adds trades, oldest first.
    pub fn insert_trades(&mut self, buffer: &Vec<Trade>)
        requires
            old(self).wf(),
            can_group(old(self).trades.raw@ + buffer@, old(self).step),
        ensures
            final(self).wf(),
            final(self).trades.raw@ == old(self).trades.raw@ + buffer@,
            *final(self) == (Ladder { trades: final(self).trades, ..*old(self) }),
    {
        self.trades.insert_trades(buffer, self.step);
    }

    /// Forgets the trades and lets a backfill be requested again.
    pub fn reset_backfill(&mut self)
        requires
            old(self).wf(),
        ensures
            final(self).wf(),
            final(self).trades.raw@ == Seq::<Trade>::empty(),
            *final(self) == (Ladder {
                trades: final(self).trades,
                backfill_done: false,
                ..*old(self)
            }),
    {
        self.backfill_done = false;
        self.trades = TradeStore::new();
    }

    /// Whether [`Ladder::insert_depth`] can hold all sums.
    pub fn can_insert_depth(&self, depth: &Depth, update_t: u64, cleanup_due: bool) -> (r: bool)
        requires
            self.wf(),
        ensures
            r == self.depth_fits(*depth, update_t, cleanup_due),
    {
        let step = match self.pending_tick_size {
            Some(step) => step,
            None => self.step,
        };
        if !check_group(&self.trades.raw, step) {
            return false;
        }
        if cleanup_due {
            let rest = self.trades.kept_trades(update_t, self.config.trade_retention_ms);
            if !check_group(&rest, step) {
                return false;
            }
        }
        if !check_regroup(&depth.asks, Side::Ask, step) || !check_regroup(
            &depth.bids,
            Side::Bid,
            step,
        ) {
            return false;
        }
        match (best_price_of(&depth.bids, Side::Bid), best_price_of(&depth.asks, Side::Ask)) {
            (Some(bid), Some(ask)) => ask.units.checked_sub(bid.units).is_some(),
            _ => true,
        }
    }

    /// Takes over an order book. A pending step becomes the current one, and the
    /// trades are grouped by it. `cleanup_due` says whether trades that are past their
    /// retention time are dropped now; if there are any, the ladder has changed at `now`. No
    /// backfill is requested here: the next [`Ladder::invalidate`] does that.
    pub fn insert_depth(
        &mut self,
        depth: &Depth,
        update_t: u64,
        cleanup_due: bool,
        now: u64,
    ) -> (r: DepthOutcome)
        requires
            old(self).wf(),
            old(self).depth_fits(*depth, update_t, cleanup_due),
        ensures
            final(self).wf(),
            final(self).has_taken(*old(self), r, *depth, update_t, cleanup_due, now),
    {
        if let Some(next) = self.pending_tick_size {
            self.pending_tick_size = None;
            self.step = next;
            self.trades.rebuild_grouped(self.step);
        }
        let raw_best_bid = best_price_of(&depth.bids, Side::Bid);
        let raw_best_ask = best_price_of(&depth.asks, Side::Ask);
        self.raw_price_spread = match (raw_best_bid, raw_best_ask) {
            (Some(bid), Some(ask)) => Some(Price { units: ask.units - bid.units }),
            _ => None,
        };
        let chase = if self.config.show_chase_tracker {
            ChaseUpdate::Track {
                best_bid: raw_best_bid,
                best_ask: raw_best_ask,
                at_ms: update_t,
                max_interval_ms: CHASE_MIN_INTERVAL_MS,
            }
        } else {
            ChaseUpdate::Reset
        };
        let cleaned = self.trades.maybe_cleanup(
            update_t,
            self.config.trade_retention_ms,
            cleanup_due,
            self.step,
        );
        self.regroup_from_depth(depth);
        if cleaned {
            self.touch(now);
        }
        self.last_exchange_ts_ms = Some(update_t);
        DepthOutcome { chase, invalidated: cleaned }
    }

    fn regroup_from_depth(&mut self, depth: &Depth)
        requires
            old(self).step.wf(),
            can_regroup(depth.asks@, Side::Ask, old(self).step),
            can_regroup(depth.bids@, Side::Bid, old(self).step),
        ensures
            is_regrouped(final(self).asks.orders@, depth.asks@, Side::Ask, old(self).step),
            is_regrouped(final(self).bids.orders@, depth.bids@, Side::Bid, old(self).step),
            on_grid(final(self).asks.orders@, old(self).step),
            on_grid(final(self).bids.orders@, old(self).step),
            *final(self) == (Ladder {
                asks: final(self).asks,
                bids: final(self).bids,
                ..*old(self)
            }),
    {
        let step = self.step;
        self.asks.regroup_from_raw(&depth.asks, Side::Ask, step);
        self.bids.regroup_from_raw(&depth.bids, Side::Bid, step);
        proof {
            assert forall|k: i64| #[trigger] self.asks.orders@.contains_key(k) implies k as int
                % step.units as int == 0 by {
                law_levels_on_grid(self.asks.orders@, depth.asks@, Side::Ask, step, k);
            }
            assert forall|k: i64| #[trigger] self.bids.orders@.contains_key(k) implies k as int
                % step.units as int == 0 by {
                law_levels_on_grid(self.bids.orders@, depth.bids@, Side::Bid, step, k);
            }
        }
    }

    /// Bought and sold quantity in the bin at `price`.
    pub fn trade_qty_at(&self, price: Price) -> (r: (Qty, Qty))
        ensures
            r == qty_at(self.trades.grouped.trades@, price.units),
    {
        self.trades.trade_qty_at(price)
    }

    pub fn last_update(&self) -> (r: u64)
        ensures
            r == self.last_tick,
    {
        self.last_tick
    }

    pub fn grouped_asks(&self) -> (r: &BTreeMap<i64, Qty>)
        ensures
            *r == self.asks.orders,
    {
        &self.asks.orders
    }

    pub fn grouped_bids(&self) -> (r: &BTreeMap<i64, Qty>)
        ensures
            *r == self.bids.orders,
    {
        &self.bids.orders
    }

    /// The best bin of a side. None if the side is empty.
    pub fn best_price(&self, side: Side) -> (r: Option<Price>)
        ensures
            r == (match side {
                Side::Bid => best(self.bids.orders@, Side::Bid),
                Side::Ask => best(self.asks.orders@, Side::Ask),
            }),
    {
        match side {
            Side::Bid => self.bids.best_price(side),
            Side::Ask => self.asks.best_price(side),
        }
    }

    pub fn min_tick_size(&self) -> (r: PriceStep)
        ensures
            r == self.ticker_info.min_ticksize,
    {
        self.ticker_info.min_ticksize
    }

    /// Notes that what is drawn has changed at `now`. Asks for nothing: a backfill that is
    /// due is left to the next [`Ladder::invalidate`].
    pub fn touch(&mut self, now: u64)
        ensures
            *final(self) == old(self).touched(now),
    {
        self.last_tick = now;
    }

    /// Lets the next order book be grouped by another step.
    pub fn set_tick_size(&mut self, step: PriceStep, now: u64)
        requires
            old(self).wf(),
            step.wf(),
        ensures
            final(self).wf(),
            *final(self) == (Ladder { pending_tick_size: Some(step), ..*old(self) }).touched(now),
    {
        self.pending_tick_size = Some(step);
        self.touch(now);
    }

    /// Switches the chase tracker on or off.
    pub fn set_show_chase_tracker(&mut self, enabled: bool, now: u64) -> (r: ChaseSwitch)
        requires
            old(self).wf(),
        ensures
            final(self).wf(),
            r == (if old(self).config.show_chase_tracker == enabled {
                ChaseSwitch::Unchanged
            } else if enabled {
                ChaseSwitch::On
            } else {
                ChaseSwitch::Off
            }),
            *final(self) == (if old(self).config.show_chase_tracker == enabled {
                *old(self)
            } else {
                (Ladder {
                    config: LadderConfig { show_chase_tracker: enabled, ..old(self).config },
                    ..*old(self)
                }).touched(now)
            }),
    {
        if self.config.show_chase_tracker != enabled {
            self.config.show_chase_tracker = enabled;
            self.touch(now);
            if enabled {
                ChaseSwitch::On
            } else {
                ChaseSwitch::Off
            }
        } else {
            ChaseSwitch::Unchanged
        }
    }

    /// Notes that what is drawn has changed, at `now` if that is given. Requests a
    /// backfill exactly once, after the ladder has received live depth data; `clock_ms`
    /// is the time of day from which the request looks back.
    pub fn invalidate(&mut self, now: Option<u64>, clock_ms: u64) -> (r: Option<Action>)
        ensures
            *final(self) == old(self).invalidated(now),
            r == old(self).backfill_request(clock_ms),
    {
        if let Some(now) = now {
            self.last_tick = now;
        }
        if self.config.backfill_enabled && !self.backfill_done && self.last_exchange_ts_ms.is_some() {
            self.backfill_done = true;
            let from_ms = clock_ms.saturating_sub(self.config.backfill_lookback_ms);
            return Some(Action::RequestBackfill { ticker_info: self.ticker_info, from_ms });
        }
        None
    }
}

/// A backfill is requested once: whatever is invalidated after that asks for nothing
/// more, and it counts as done only if the request was handed to the caller.
pub proof fn law_backfill_once(ladder: Ladder, first: Option<u64>, clock_ms: u64)
    ensures
        ladder.invalidated(first).backfill_request(clock_ms) is None,
        ladder.invalidated(first).backfill_done == (ladder.backfill_done
            || ladder.backfill_request(clock_ms) is Some),
{
}

/// What changes the ladder without asking for anything loses no request that is due.
pub proof fn law_backfill_is_not_lost(
    ladder: Ladder,
    step: PriceStep,
    enabled: bool,
    now: u64,
    clock_ms: u64,
)
    ensures
        ladder.touched(now).backfill_request(clock_ms) == ladder.backfill_request(clock_ms),
        (Ladder { pending_tick_size: Some(step), ..ladder }).touched(now).backfill_request(clock_ms)
            == ladder.backfill_request(clock_ms),
        (Ladder {
            config: LadderConfig { show_chase_tracker: enabled, ..ladder.config },
            ..ladder
        }).touched(now).backfill_request(clock_ms) == ladder.backfill_request(clock_ms),
{
}

/// No backfill is requested before the first order book has arrived.
pub proof fn law_backfill_waits_for_depth(ladder: Ladder, now: Option<u64>, clock_ms: u64)
    requires
        ladder.last_exchange_ts_ms is None,
    ensures
        ladder.backfill_request(clock_ms) is None,
        ladder.invalidated(now).backfill_done == ladder.backfill_done,
{
}

/// After a reset, a ladder that has received an order book requests its backfill again,
/// if backfills are enabled, and from no later than the present.
pub proof fn law_backfill_after_reset(ladder: Ladder, clock_ms: u64)
    requires
        !ladder.backfill_done,
        ladder.last_exchange_ts_ms is Some,
        ladder.config.backfill_enabled,
    ensures
        ladder.backfill_request(clock_ms) matches Some(
            Action::RequestBackfill { ticker_info, from_ms },
        ) && ticker_info == ladder.ticker_info && from_ms <= clock_ms,
{
}

/// A backfill is requested exactly if backfills are enabled, none was requested before and
/// an order book has arrived; it is for this ladder's ticker, and looks back by the
/// configured time, though not beyond the beginning of time.
pub proof fn law_backfill_request(ladder: Ladder, clock_ms: u64)
    ensures
        ladder.backfill_request(clock_ms) is Some <==> ladder.config.backfill_enabled
            && !ladder.backfill_done && ladder.last_exchange_ts_ms is Some,
        ladder.backfill_request(clock_ms) matches Some(
            Action::RequestBackfill { ticker_info, from_ms },
        ) ==> {
            &&& ticker_info == ladder.ticker_info
            &&& from_ms == 0 || from_ms + ladder.config.backfill_lookback_ms == clock_ms
            &&& from_ms + ladder.config.backfill_lookback_ms >= clock_ms
        },
{
}

/// Invalidating a ladder sets the time of its last change, if one is given, and notes a
/// request that was made; all else stays.
pub proof fn law_invalidate(ladder: Ladder, now: Option<u64>, tick: u64)
    ensures
        ladder.invalidated(Some(tick)).last_tick == tick,
        ladder.invalidated(None).last_tick == ladder.last_tick,
        ladder.touched(tick).last_tick == tick,
        ladder.touched(tick) == (Ladder { last_tick: tick, ..ladder }),
        ladder.invalidated(now) == (Ladder {
            last_tick: ladder.invalidated(now).last_tick,
            backfill_done: ladder.invalidated(now).backfill_done,
            ..ladder
        }),
        ladder.invalidated(now).backfill_done == (ladder.backfill_done || (
        ladder.config.backfill_enabled && ladder.last_exchange_ts_ms is Some)),
{
}

/// What an order book leads to. A pending step becomes the step, and otherwise the step
/// stays; nothing is pending afterwards, and both sides are grouped by that step. Trades
/// past their retention time are gone if a cleanup was due, and only then; what was drawn
/// is stale exactly if any were. Settings and backfill stay.
pub proof fn law_order_book_is_taken_over(
    before: Ladder,
    after: Ladder,
    outcome: DepthOutcome,
    depth: Depth,
    update_t: u64,
    cleanup_due: bool,
    now: u64,
)
    requires
        after.has_taken(before, outcome, depth, update_t, cleanup_due, now),
    ensures
        after.step == (match before.pending_tick_size {
            Some(step) => step,
            None => before.step,
        }),
        after.pending_tick_size is None,
        is_regrouped(after.bids.orders@, depth.bids@, Side::Bid, after.step),
        is_regrouped(after.asks.orders@, depth.asks@, Side::Ask, after.step),
        after.last_exchange_ts_ms == Some(update_t),
        after.config == before.config,
        after.ticker_info == before.ticker_info,
        after.backfill_done == before.backfill_done,
        cleanup_due ==> after.trades.raw@ == before.trades.raw@.filter(
            |t: Trade| t.time + before.config.trade_retention_ms >= update_t,
        ),
        !cleanup_due ==> after.trades.raw@ == before.trades.raw@,
        outcome.invalidated <==> after.trades.raw@.len() != before.trades.raw@.len(),
        after.last_tick == (if outcome.invalidated {
            now
        } else {
            before.last_tick
        }),
{
    law_retention(before.trades.raw@, update_t, before.config.trade_retention_ms);
    if cleanup_due {
        before.trades.raw@.lemma_filter_len(
            |t: Trade| t.time + before.config.trade_retention_ms >= update_t,
        );
    }
}

/// The spread is the lowest ask less the highest bid of the order book as it came in, and
/// these two go to the chase trackers, if they are shown; hidden ones are reset.
pub proof fn law_spread_and_chase(
    before: Ladder,
    after: Ladder,
    outcome: DepthOutcome,
    depth: Depth,
    update_t: u64,
    cleanup_due: bool,
    now: u64,
    bid: Price,
    ask: Price,
)
    requires
        after.has_taken(before, outcome, depth, update_t, cleanup_due, now),
        depth.bids@.contains_key(bid.units),
        forall|k: i64| #[trigger] depth.bids@.contains_key(k) ==> k <= bid.units,
        depth.asks@.contains_key(ask.units),
        forall|k: i64| #[trigger] depth.asks@.contains_key(k) ==> ask.units <= k,
    ensures
        after.raw_price_spread matches Some(spread) && spread.units == ask.units - bid.units,
        outcome.chase == (if before.config.show_chase_tracker {
            ChaseUpdate::Track {
                best_bid: Some(bid),
                best_ask: Some(ask),
                at_ms: update_t,
                max_interval_ms: 200,
            }
        } else {
            ChaseUpdate::Reset
        }),
{
    lemma_best_exists(depth.bids@, Side::Bid);
    lemma_best_exists(depth.asks@, Side::Ask);
}

/// A side without orders has no best price: there is no spread, and a tracker that is
/// shown is told so.
pub proof fn law_one_sided_book(
    before: Ladder,
    after: Ladder,
    outcome: DepthOutcome,
    depth: Depth,
    update_t: u64,
    cleanup_due: bool,
    now: u64,
)
    requires
        after.has_taken(before, outcome, depth, update_t, cleanup_due, now),
        depth.bids@ == Map::<i64, Qty>::empty() || depth.asks@ == Map::<i64, Qty>::empty(),
    ensures
        after.raw_price_spread is None,
        outcome.chase matches ChaseUpdate::Track { best_bid, best_ask, .. } ==> {
            &&& best_bid is None <==> depth.bids@ == Map::<i64, Qty>::empty()
            &&& best_ask is None <==> depth.asks@ == Map::<i64, Qty>::empty()
        },
        outcome.chase is Track <==> before.config.show_chase_tracker,
{
}

} // verus!
