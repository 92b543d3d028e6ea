use orderflow::book::{Depth, Side};
use orderflow::ladder::{
    Action, ChaseSwitch, ChaseUpdate, Ladder, LadderConfig, TickerInfo, ViewMode,
};
use orderflow::market::Trade;
use orderflow::units::{Price, PriceStep, Qty};
use std::collections::BTreeMap;

fn config() -> LadderConfig {
    LadderConfig {
        view_mode: ViewMode::Original,
        show_spread: true,
        show_chase_tracker: true,
        show_trade_text: true,
        cumulative_trades: false,
        cumulative_orders: false,
        trade_retention_ms: 1_000,
        backfill_enabled: true,
        backfill_lookback_ms: 600,
    }
}

fn ticker() -> TickerInfo {
    TickerInfo { min_ticksize: PriceStep { units: 2 }, depth_client_aggr: true }
}

fn ladder() -> Ladder {
    Ladder::new(None, config(), ticker(), PriceStep { units: 10 }, 7)
}

fn levels(entries: &[(i64, i64)]) -> BTreeMap<i64, Qty> {
    entries.iter().map(|(price, qty)| (*price, Qty { units: *qty })).collect()
}

fn depth() -> Depth {
    Depth { bids: levels(&[(96, 1), (104, 2)]), asks: levels(&[(107, 4), (113, 8)]) }
}

fn trade(time: u64, is_sell: bool, price: i64, qty: i64) -> Trade {
    Trade { time, is_sell, price: Price { units: price }, qty: Qty { units: qty } }
}

fn bins(orders: &BTreeMap<i64, Qty>) -> Vec<(i64, i64)> {
    orders.iter().map(|(bin, qty)| (*bin, qty.units)).collect()
}

#[test]
fn new_ladder_is_empty() {
    let ladder = ladder();
    assert!(ladder.is_empty());
    assert_eq!(ladder.last_update(), 7);
    assert_eq!(ladder.min_tick_size(), PriceStep { units: 2 });
    assert_eq!(ladder.best_price(Side::Bid), None);
    let saved = LadderConfig { show_spread: false, ..config() };
    let restored = Ladder::new(Some(saved), config(), ticker(), PriceStep { units: 10 }, 0);
    assert_eq!(restored.config, saved);
}

#[test]
fn order_book_is_grouped_by_side() {
    let mut ladder = ladder();
    assert!(ladder.can_insert_depth(&depth(), 50, false));
    let outcome = ladder.insert_depth(&depth(), 50, false, 9);
    assert_eq!(bins(ladder.grouped_bids()), [(90, 1), (100, 2)]);
    assert_eq!(bins(ladder.grouped_asks()), [(110, 4), (120, 8)]);
    assert_eq!(ladder.best_price(Side::Bid), Some(Price { units: 100 }));
    assert_eq!(ladder.best_price(Side::Ask), Some(Price { units: 110 }));
    assert_eq!(ladder.raw_price_spread, Some(Price { units: 3 }));
    assert!(!ladder.is_empty());
    assert!(!outcome.invalidated);
    assert_eq!(ladder.last_update(), 7);
    assert_eq!(
        outcome.chase,
        ChaseUpdate::Track {
            best_bid: Some(Price { units: 104 }),
            best_ask: Some(Price { units: 107 }),
            at_ms: 50,
            max_interval_ms: 200,
        }
    );
}

#[test]
fn one_sided_book_has_no_spread() {
    let mut ladder = ladder();
    let bids_only = Depth { bids: levels(&[(96, 1)]), asks: BTreeMap::new() };
    ladder.insert_depth(&bids_only, 50, false, 9);
    assert_eq!(ladder.raw_price_spread, None);
}

#[test]
fn hidden_chase_tracker_is_reset() {
    let mut ladder = ladder();
    assert_eq!(ladder.set_show_chase_tracker(true, 20), ChaseSwitch::Unchanged);
    assert_eq!(ladder.last_update(), 7);
    assert_eq!(ladder.set_show_chase_tracker(false, 20), ChaseSwitch::Off);
    assert_eq!(ladder.last_update(), 20);
    let outcome = ladder.insert_depth(&depth(), 50, false, 9);
    assert_eq!(outcome.chase, ChaseUpdate::Reset);
    assert_eq!(ladder.set_show_chase_tracker(true, 30), ChaseSwitch::On);
}

#[test]
fn another_step_waits_for_the_next_order_book() {
    let mut ladder = ladder();
    ladder.insert_trades(&vec![trade(10, false, 101, 3)]);
    ladder.insert_depth(&depth(), 50, false, 9);
    ladder.set_tick_size(PriceStep { units: 50 }, 11);
    assert!(ladder.is_empty());
    assert_eq!(ladder.step, PriceStep { units: 10 });
    assert_eq!(ladder.trade_qty_at(Price { units: 110 }).0, Qty { units: 3 });
    ladder.insert_depth(&depth(), 60, false, 12);
    assert!(!ladder.is_empty());
    assert_eq!(ladder.step, PriceStep { units: 50 });
    assert_eq!(bins(ladder.grouped_bids()), [(50, 1), (100, 2)]);
    assert_eq!(bins(ladder.grouped_asks()), [(150, 12)]);
    assert_eq!(ladder.trade_qty_at(Price { units: 150 }).0, Qty { units: 3 });
}

#[test]
fn old_trades_are_dropped_when_cleanup_is_due() {
    let mut ladder = ladder();
    ladder.insert_trades(&vec![trade(10, false, 101, 3), trade(900, true, 101, 5)]);
    let outcome = ladder.insert_depth(&depth(), 1_500, true, 77);
    assert!(outcome.invalidated);
    assert_eq!(ladder.last_update(), 77);
    assert_eq!(ladder.trade_qty_at(Price { units: 110 }).0, Qty::default());
    assert_eq!(ladder.trade_qty_at(Price { units: 100 }).1, Qty { units: 5 });
}

#[test]
fn backfill_is_requested_once_after_depth() {
    let mut ladder = ladder();
    assert_eq!(ladder.invalidate(Some(8), 5_000), None);
    assert_eq!(ladder.last_update(), 8);
    ladder.insert_depth(&depth(), 50, false, 9);
    let request = Action::RequestBackfill { ticker_info: ticker(), from_ms: 4_400 };
    assert_eq!(ladder.invalidate(None, 5_000), Some(request));
    assert_eq!(ladder.last_update(), 8);
    assert_eq!(ladder.invalidate(Some(9), 5_000), None);
    ladder.insert_trades(&vec![trade(10, false, 101, 3)]);
    ladder.reset_backfill();
    assert!(ladder.trades.is_empty());
    let early = Action::RequestBackfill { ticker_info: ticker(), from_ms: 0 };
    assert_eq!(ladder.invalidate(None, 100), Some(early));
}

#[test]
fn backfill_can_be_disabled() {
    let disabled = LadderConfig { backfill_enabled: false, ..config() };
    let mut ladder = Ladder::new(Some(disabled), config(), ticker(), PriceStep { units: 10 }, 0);
    ladder.insert_depth(&depth(), 50, false, 9);
    assert_eq!(ladder.invalidate(None, 5_000), None);
}

#[test]
fn trades_beyond_the_range_are_refused() {
    let mut ladder = ladder();
    assert!(!ladder.can_insert_trades(&vec![trade(1, false, i64::MAX, 1)]));
    let full = vec![trade(1, false, 100, i64::MAX)];
    assert!(ladder.can_insert_trades(&full));
    ladder.insert_trades(&full);
    assert!(!ladder.can_insert_trades(&vec![trade(2, false, 100, 1)]));
}

#[test]
fn depth_beyond_the_range_is_refused() {
    let ladder = ladder();
    let wide = Depth {
        bids: levels(&[(i64::MIN + 8, 1)]),
        asks: levels(&[(i64::MAX - 7, 1)]),
    };
    assert!(!ladder.can_insert_depth(&wide, 50, false));
    let full = Depth { bids: levels(&[(101, i64::MAX), (102, 1)]), asks: BTreeMap::new() };
    assert!(!ladder.can_insert_depth(&full, 50, false));
}

#[test]
fn backfill_request_is_not_lost_on_the_way() {
    let mut ladder = ladder();
    ladder.insert_depth(&depth(), 50, false, 9);
    ladder.insert_trades(&vec![trade(10, false, 101, 3)]);
    ladder.set_tick_size(PriceStep { units: 50 }, 11);
    ladder.set_show_chase_tracker(false, 12);
    assert!(ladder.insert_depth(&depth(), 5_000, true, 13).invalidated);
    ladder.touch(14);
    assert_eq!(ladder.last_update(), 14);
    let request = Action::RequestBackfill { ticker_info: ticker(), from_ms: 4_400 };
    assert_eq!(ladder.invalidate(None, 5_000), Some(request));
    assert_eq!(ladder.invalidate(None, 5_000), None);
}
