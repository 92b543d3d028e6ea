use orderflow::book::Depth;
use orderflow::grid::PriceGrid;
use orderflow::ladder::{Ladder, LadderConfig, TickerInfo, ViewMode};
use orderflow::market::Trade;
use orderflow::rows::{DomRow, VisibleRow};
use orderflow::units::{Price, PriceStep, Qty};
use std::collections::BTreeMap;

fn config() -> LadderConfig {
    LadderConfig {
        view_mode: ViewMode::Original,
        show_spread: true,
        show_chase_tracker: false,
        show_trade_text: true,
        cumulative_trades: false,
        cumulative_orders: false,
        trade_retention_ms: 1_000,
        backfill_enabled: false,
        backfill_lookback_ms: 0,
    }
}

fn with_config(config: LadderConfig) -> Ladder {
    let ticker = TickerInfo { min_ticksize: PriceStep { units: 1 }, depth_client_aggr: true };
    Ladder::new(Some(config), config, ticker, PriceStep { units: 10 }, 0)
}

fn levels(entries: &[(i64, i64)]) -> BTreeMap<i64, Qty> {
    entries.iter().map(|(price, qty)| (*price, Qty { units: *qty })).collect()
}

fn trade(is_sell: bool, price: i64, qty: i64) -> Trade {
    Trade { time: 10, is_sell, price: Price { units: price }, qty: Qty { units: qty } }
}

fn filled(config: LadderConfig) -> Ladder {
    let mut ladder = with_config(config);
    let bids = levels(&[(100, 1), (90, 2), (70, 4)]);
    let asks = levels(&[(110, 8), (130, 16)]);
    ladder.insert_depth(&Depth { bids, asks }, 50, false, 0);
    ladder.insert_trades(&vec![
        trade(false, 110, 3),
        trade(true, 120, 5),
        trade(true, 100, 7),
        trade(false, 90, 9),
    ]);
    ladder
}

fn order_qty(row: &VisibleRow) -> i64 {
    match row.row {
        DomRow::Ask { qty, .. } | DomRow::Bid { qty, .. } => qty.units,
        _ => 0,
    }
}

fn figures(rows: &[VisibleRow]) -> Vec<(i32, i64, i64, i64)> {
    rows.iter()
        .map(|row| (row.idx, order_qty(row), row.buy_t.units, row.sell_t.units))
        .collect()
}

#[test]
fn ladder_is_centred_on_the_best_bid() {
    let ladder = filled(config());
    assert!(ladder.can_build_price_grid());
    let grid = ladder.build_price_grid().unwrap();
    assert_eq!(grid.best_bid, Price { units: 100 });
    assert_eq!(grid.best_ask, Price { units: 110 });
    assert_eq!(grid.tick, PriceStep { units: 10 });
}

#[test]
fn ladder_without_bids_is_centred_below_the_best_ask() {
    let mut ladder = with_config(config());
    let depth = Depth { bids: BTreeMap::new(), asks: levels(&[(130, 1), (150, 1)]) };
    ladder.insert_depth(&depth, 50, false, 0);
    let grid = ladder.build_price_grid().unwrap();
    assert_eq!(grid.best_bid, Price { units: 120 });
    assert_eq!(grid.best_ask, Price { units: 130 });
}

#[test]
fn ladder_without_orders_is_centred_on_the_trades() {
    let mut ladder = with_config(config());
    assert_eq!(ladder.build_price_grid(), None);
    ladder.insert_trades(&vec![trade(false, 100, 1), trade(false, 150, 1)]);
    // six steps from 100 to 150, so the centre is three below 150
    assert_eq!(ladder.build_price_grid().unwrap().best_bid, Price { units: 120 });
    ladder.reset_backfill();
    ladder.insert_trades(&vec![trade(false, 100, 1)]);
    assert_eq!(ladder.build_price_grid().unwrap().best_bid, Price { units: 100 });
}

#[test]
fn centre_beyond_the_range_is_refused() {
    let ticker = TickerInfo { min_ticksize: PriceStep { units: 1 }, depth_client_aggr: true };
    let mut ladder = Ladder::new(None, config(), ticker, PriceStep { units: 1 }, 0);
    let depth = Depth { bids: levels(&[(i64::MAX, 1)]), asks: BTreeMap::new() };
    ladder.insert_depth(&depth, 50, false, 0);
    assert!(!ladder.can_build_price_grid());
    let depth = Depth { bids: BTreeMap::new(), asks: levels(&[(i64::MIN, 1)]) };
    ladder.insert_depth(&depth, 50, false, 0);
    assert!(!ladder.can_build_price_grid());
}

#[test]
fn widest_range_of_trades_is_centred_above_it() {
    let ticker = TickerInfo { min_ticksize: PriceStep { units: 1 }, depth_client_aggr: true };
    let mut ladder = Ladder::new(None, config(), ticker, PriceStep { units: 1 }, 0);
    // 2^63 steps, which is negative as a signed number
    ladder.insert_trades(&vec![trade(false, i64::MIN, 1), trade(false, -1, 1)]);
    assert!(ladder.can_build_price_grid());
    let grid = ladder.build_price_grid().unwrap();
    assert_eq!(grid.best_bid, Price { units: (1 << 62) - 1 });
}

#[test]
fn rows_show_orders_and_trades_of_their_price() {
    let ladder = filled(config());
    let grid = ladder.build_price_grid().unwrap();
    assert!(ladder.can_show_rows(&grid, -3, 4));
    let (rows, maxima) = ladder.visible_rows(&grid, -3, 4);
    assert_eq!(
        figures(&rows),
        [
            (-3, 16, 0, 0),
            (-2, 0, 0, 5),
            (-1, 8, 3, 0),
            (0, 0, 0, 0),
            (1, 1, 0, 7),
            (2, 2, 9, 0),
            (3, 0, 0, 0),
            (4, 4, 0, 0),
        ]
    );
    assert_eq!(rows[0].row, DomRow::Ask { price: Price { units: 130 }, qty: Qty { units: 16 } });
    assert_eq!(rows[3].row, DomRow::Spread);
    assert_eq!(rows[4].row, DomRow::Bid { price: Price { units: 100 }, qty: Qty { units: 1 } });
    assert_eq!(maxima.vis_max_order_qty, Qty { units: 16 });
    assert_eq!(maxima.vis_max_trade_qty, Qty { units: 9 });
}

#[test]
fn cumulative_trades_grow_toward_the_spread_and_orders_away_from_it() {
    let sums = LadderConfig { cumulative_trades: true, cumulative_orders: true, ..config() };
    let ladder = filled(sums);
    let grid = ladder.build_price_grid().unwrap();
    assert!(ladder.can_show_rows(&grid, -3, 4));
    let (rows, maxima) = ladder.visible_rows(&grid, -3, 4);
    assert_eq!(
        figures(&rows),
        [
            (-3, 24, 0, 0),
            (-2, 8, 0, 5),
            (-1, 8, 3, 5),
            (0, 0, 0, 0),
            (1, 1, 9, 7),
            (2, 3, 9, 0),
            (3, 3, 0, 0),
            (4, 7, 0, 0),
        ]
    );
    assert_eq!(maxima.vis_max_order_qty, Qty { units: 24 });
    assert_eq!(maxima.vis_max_trade_qty, Qty { units: 9 });
}

#[test]
fn trades_and_orders_are_summed_separately() {
    let ladder = filled(LadderConfig { cumulative_orders: true, ..config() });
    let grid = ladder.build_price_grid().unwrap();
    let (rows, _) = ladder.visible_rows(&grid, 0, 2);
    assert_eq!(figures(&rows), [(0, 0, 0, 0), (1, 1, 0, 7), (2, 3, 9, 0)]);
    let ladder = filled(LadderConfig { cumulative_trades: true, ..config() });
    let (rows, _) = ladder.visible_rows(&grid, -2, 0);
    assert_eq!(figures(&rows), [(-2, 0, 0, 5), (-1, 8, 3, 5), (0, 0, 0, 0)]);
}

#[test]
fn without_the_spread_row_nothing_is_summed() {
    let sums = LadderConfig { cumulative_trades: true, cumulative_orders: true, ..config() };
    let ladder = filled(sums);
    let grid = ladder.build_price_grid().unwrap();
    let (rows, maxima) = ladder.visible_rows(&grid, 1, 4);
    assert_eq!(figures(&rows), [(1, 1, 0, 7), (2, 2, 9, 0), (3, 0, 0, 0), (4, 4, 0, 0)]);
    assert_eq!(maxima.vis_max_order_qty, Qty { units: 4 });
}

#[test]
fn no_rows_have_no_maxima() {
    let ladder = filled(config());
    let grid = ladder.build_price_grid().unwrap();
    assert!(ladder.can_show_rows(&grid, 5, 4));
    let (rows, maxima) = ladder.visible_rows(&grid, 5, 4);
    assert!(rows.is_empty());
    assert_eq!(maxima.vis_max_order_qty, Qty::default());
    assert_eq!(maxima.vis_max_trade_qty, Qty::default());
}

#[test]
fn middle_row_is_a_divider_unless_the_spread_is_shown() {
    let hidden = filled(LadderConfig { show_spread: false, ..config() });
    let grid = hidden.build_price_grid().unwrap();
    assert_eq!(hidden.visible_rows(&grid, 0, 0).0[0].row, DomRow::CenterDivider);
    let mut grouped_by_exchange = filled(config());
    grouped_by_exchange.ticker_info.depth_client_aggr = false;
    assert_eq!(grouped_by_exchange.visible_rows(&grid, 0, 0).0[0].row, DomRow::CenterDivider);
}

#[test]
fn rows_beyond_the_range_are_refused() {
    let ladder = filled(config());
    let high = PriceGrid {
        best_bid: Price { units: i64::MAX - 17 },
        best_ask: Price { units: i64::MAX - 7 },
        tick: PriceStep { units: 10 },
    };
    assert!(ladder.can_show_rows(&high, -1, 1));
    assert!(!ladder.can_show_rows(&high, -2, 1));
    let mut full = filled(LadderConfig { cumulative_orders: true, ..config() });
    let bids = levels(&[(100, i64::MAX), (90, 1)]);
    full.insert_depth(&Depth { bids, asks: BTreeMap::new() }, 60, false, 0);
    let grid = full.build_price_grid().unwrap();
    assert!(full.can_show_rows(&grid, 0, 1));
    assert!(!full.can_show_rows(&grid, 0, 2));
    assert!(full.can_show_rows(&grid, 1, 2));
}

#[test]
fn every_bin_stands_on_its_row() {
    let ladder = filled(config());
    let grid = ladder.build_price_grid().unwrap();
    for bin in ladder.grouped_bids().keys() {
        let idx = grid.price_to_index(Price { units: *bin }).unwrap();
        assert!(idx > 0);
        assert_eq!(grid.index_to_price(idx), Some(Price { units: *bin }));
    }
    for bin in ladder.grouped_asks().keys() {
        let idx = grid.price_to_index(Price { units: *bin }).unwrap();
        assert!(idx < 0);
        assert_eq!(grid.index_to_price(idx), Some(Price { units: *bin }));
    }
}

#[test]
fn best_ask_row_shows_trades_above_it() {
    let mut ladder = with_config(LadderConfig { cumulative_trades: true, ..config() });
    let bids = levels(&[(100, 1)]);
    ladder.insert_depth(&Depth { bids, asks: BTreeMap::new() }, 50, false, 0);
    ladder.insert_trades(&vec![trade(false, 120, 3)]);
    let grid = ladder.build_price_grid().unwrap();
    let (rows, maxima) = ladder.visible_rows(&grid, -2, 1);
    assert_eq!(figures(&rows), [(-2, 0, 3, 0), (-1, 0, 3, 0), (0, 0, 0, 0), (1, 1, 0, 0)]);
    assert_eq!(maxima.vis_max_trade_qty, Qty { units: 3 });
    let (rows, _) = ladder.visible_rows(&grid, -1, 1);
    assert_eq!(figures(&rows)[0], (-1, 0, 0, 0));
}

#[test]
fn trade_sums_beyond_the_range_are_refused() {
    let mut ladder = with_config(LadderConfig { cumulative_trades: true, ..config() });
    let bids = levels(&[(100, 1)]);
    ladder.insert_depth(&Depth { bids, asks: BTreeMap::new() }, 50, false, 0);
    ladder.insert_trades(&vec![trade(true, 90, i64::MAX), trade(true, 80, 1)]);
    ladder.insert_trades(&vec![trade(false, 110, i64::MAX), trade(false, 120, 1)]);
    let grid = ladder.build_price_grid().unwrap();
    assert!(ladder.can_show_rows(&grid, -1, 2));
    assert!(!ladder.can_show_rows(&grid, -1, 3));
    assert!(!ladder.can_show_rows(&grid, -2, 2));
    assert!(ladder.can_show_rows(&grid, 1, 3));
}

#[test]
fn cumulative_settings_touch_only_their_own_figures() {
    let plain = filled(config());
    let grid = plain.build_price_grid().unwrap();
    let (rows, maxima) = plain.visible_rows(&grid, -3, 4);
    let trades = filled(LadderConfig { cumulative_trades: true, ..config() });
    let (trade_rows, trade_maxima) = trades.visible_rows(&grid, -3, 4);
    let orders = filled(LadderConfig { cumulative_orders: true, ..config() });
    let (order_rows, order_maxima) = orders.visible_rows(&grid, -3, 4);
    for j in 0..rows.len() {
        assert_eq!(trade_rows[j].row, rows[j].row);
        assert_eq!(order_rows[j].buy_t, rows[j].buy_t);
        assert_eq!(order_rows[j].sell_t, rows[j].sell_t);
        assert_eq!(order_rows[j].idx, rows[j].idx);
    }
    assert_eq!(trade_maxima.vis_max_order_qty, maxima.vis_max_order_qty);
    assert_eq!(order_maxima.vis_max_trade_qty, maxima.vis_max_trade_qty);
}
