use orderflow::book::{Depth, Side};
use orderflow::grid::PriceGrid;
use orderflow::ladder::{Ladder, LadderConfig, TickerInfo, ViewMode};
use orderflow::market::Trade;
use orderflow::panel::{
    bar, can_trail, chase_trail, delta_label, delta_text, max_single_vp_qty, price_sample_text,
    spread_text, vp_bars, Bar, Cell, ChaseTrail, DeltaLabel, DrawMode, LevelTexts, VpBars, VpCell,
};
use orderflow::units::{Price, PriceStep, Qty};
use std::collections::BTreeMap;

fn qty(units: i64) -> Qty {
    Qty { units }
}

fn ladder(view_mode: ViewMode, show_trade_text: bool) -> Ladder {
    let config = LadderConfig {
        view_mode,
        show_spread: true,
        show_chase_tracker: false,
        show_trade_text,
        cumulative_trades: false,
        cumulative_orders: false,
        trade_retention_ms: 1_000,
        backfill_enabled: false,
        backfill_lookback_ms: 0,
    };
    let ticker = TickerInfo { min_ticksize: PriceStep { units: 2 }, depth_client_aggr: true };
    let mut ladder = Ladder::new(Some(config), config, ticker, PriceStep { units: 10 }, 0);
    let bids: BTreeMap<i64, Qty> = [(104, qty(1)), (95, qty(2))].into_iter().collect();
    let asks: BTreeMap<i64, Qty> = [(107, qty(8))].into_iter().collect();
    ladder.insert_depth(&Depth { bids, asks }, 50, false, 0);
    ladder.insert_trades(&vec![
        Trade { time: 10, is_sell: false, price: Price { units: 90 }, qty: qty(6) },
        Trade { time: 11, is_sell: true, price: Price { units: 90 }, qty: qty(9) },
    ]);
    ladder
}

#[test]
fn bars_need_positive_quantities() {
    assert_eq!(bar(qty(3), qty(4)), Some(Bar { part: qty(3), whole: qty(4) }));
    assert_eq!(bar(qty(0), qty(4)), None);
    assert_eq!(bar(qty(3), qty(0)), None);
    assert_eq!(bar(qty(-3), qty(4)), None);
}

#[test]
fn stacked_bars_share_the_panel() {
    let stacked = |buy, sell| vp_bars(qty(buy), qty(sell), qty(10), true);
    let parts = |ask, bid| VpBars::Stacked {
        ask_part: qty(ask),
        bid_part: qty(bid),
        whole: qty(10),
    };
    assert_eq!(stacked(3, 4), parts(4, 3));
    assert_eq!(stacked(8, 7), parts(7, 3));
    assert_eq!(stacked(5, 10), parts(10, 0));
    assert_eq!(stacked(5, 12), parts(10, 0));
    assert_eq!(vp_bars(qty(1), qty(1), qty(0), true), VpBars::Nothing);
}

#[test]
fn delta_bar_belongs_to_the_side_that_prevails() {
    let delta = |buy, sell| vp_bars(qty(buy), qty(sell), qty(10), false);
    let bar = |part, buys_prevail| VpBars::Delta { part: qty(part), whole: qty(10), buys_prevail };
    assert_eq!(delta(9, 2), bar(7, true));
    assert_eq!(delta(2, 9), bar(7, false));
    assert_eq!(delta(4, 4), bar(0, true));
    assert_eq!(delta(30, 4), bar(10, true));
    assert_eq!(vp_bars(qty(1), qty(1), qty(0), false), VpBars::Nothing);
}

#[test]
fn delta_labels_are_signed() {
    let up = DeltaLabel { buys_prevail: true, qty: qty(7) };
    let down = DeltaLabel { buys_prevail: false, qty: qty(7) };
    assert_eq!(delta_label(qty(9), qty(2), qty(9), true), Some(up));
    assert_eq!(delta_label(qty(2), qty(9), qty(9), true), Some(down));
    assert_eq!(delta_label(qty(0), qty(0), qty(9), true), None);
    assert_eq!(delta_label(qty(2), qty(9), qty(9), false), None);
    assert_eq!(delta_label(qty(2), qty(9), qty(0), true), None);
    assert_eq!(delta_text(up, "7"), "+7");
    assert_eq!(delta_text(down, "7"), "-7");
}

#[test]
fn sample_text_is_the_longer_one() {
    let text = |ask: &str, bid: &str| price_sample_text(ask.to_string(), bid.to_string());
    assert_eq!(text("100", "99"), "100");
    assert_eq!(text("99", "100"), "100");
    assert_eq!(text("11", "10"), "11");
    assert_eq!(spread_text("0.5"), "Spread: 0.5");
}

#[test]
fn view_modes_choose_how_to_draw() {
    assert_eq!(ladder(ViewMode::Original, true).draw_mode(), DrawMode::Original);
    let stacked = ladder(ViewMode::StackedVP, true).draw_mode();
    assert_eq!(stacked, DrawMode::VolumeProfile { stacked: true });
    let delta = ladder(ViewMode::DeltaVP, true).draw_mode();
    assert_eq!(delta, DrawMode::VolumeProfile { stacked: false });
}

#[test]
fn original_view_shows_bars_and_texts() {
    let ladder = ladder(ViewMode::Original, true);
    let grid = ladder.build_price_grid().unwrap();
    let (rows, maxima) = ladder.visible_rows(&grid, -1, 2);
    assert!(ladder.can_round_spread());
    let cells: Vec<Cell> = rows.iter().map(|row| ladder.cell(row, &maxima)).collect();
    let bar = |part, whole| Some(Bar { part: qty(part), whole: qty(whole) });
    let texts =
        |order, sell, buy| Some(LevelTexts { order: qty(order), sell: qty(sell), buy: qty(buy) });
    assert_eq!(
        cells[0],
        Cell::Level {
            price: Price { units: 110 },
            is_bid: false,
            order_bar: bar(8, 8),
            sell_bar: None,
            buy_bar: None,
            texts: texts(8, 0, 0),
        }
    );
    assert_eq!(cells[1], Cell::Spread { spread: Some(Price { units: 4 }) });
    assert_eq!(
        cells[3],
        Cell::Level {
            price: Price { units: 90 },
            is_bid: true,
            order_bar: bar(2, 8),
            sell_bar: bar(9, 9),
            buy_bar: bar(6, 9),
            texts: texts(2, 9, 6),
        }
    );
    assert_eq!(ladder.spread_row(&rows), Some(0));
    assert_eq!(ladder.best_row(&rows, Side::Bid), Some(1));
    assert_eq!(ladder.best_row(&rows, Side::Ask), Some(-1));
}

#[test]
fn quantities_are_written_only_on_demand() {
    let ladder = ladder(ViewMode::Original, false);
    let grid = ladder.build_price_grid().unwrap();
    let (rows, maxima) = ladder.visible_rows(&grid, 1, 2);
    for row in &rows {
        assert!(matches!(ladder.cell(row, &maxima), Cell::Level { texts: None, .. }));
        let cell = ladder.vp_cell(row, &maxima, qty(9), true);
        assert!(matches!(cell, VpCell::Level { order_text: None, label: None, .. }));
    }
    assert_eq!(ladder.spread_row(&rows), None);
    assert_eq!(ladder.best_row(&rows, Side::Ask), None);
}

#[test]
fn profile_view_shows_bars_and_labels() {
    let ladder = ladder(ViewMode::DeltaVP, true);
    let grid = ladder.build_price_grid().unwrap();
    let (rows, maxima) = ladder.visible_rows(&grid, 0, 2);
    let max = max_single_vp_qty(&rows);
    assert_eq!(max, qty(9));
    assert!(rows[2].buy_t.can_abs_diff(rows[2].sell_t));
    assert_eq!(
        ladder.vp_cell(&rows[2], &maxima, max, false),
        VpCell::Level {
            price: Price { units: 90 },
            is_bid: true,
            order_bar: Some(Bar { part: qty(2), whole: qty(2) }),
            order_text: Some(qty(2)),
            bars: VpBars::Delta { part: qty(3), whole: qty(9), buys_prevail: false },
            label: Some(DeltaLabel { buys_prevail: false, qty: qty(3) }),
        }
    );
    let spread = ladder.vp_cell(&rows[0], &maxima, max, false);
    assert_eq!(spread, VpCell::Spread { spread: Some(Price { units: 4 }) });
}

#[test]
fn divider_and_missing_spread_are_blank() {
    let mut ladder = ladder(ViewMode::Original, true);
    let grid = ladder.build_price_grid().unwrap();
    let bids: BTreeMap<i64, Qty> = [(104, qty(1))].into_iter().collect();
    ladder.insert_depth(&Depth { bids, asks: BTreeMap::new() }, 60, false, 0);
    let (rows, maxima) = ladder.visible_rows(&grid, 0, 0);
    assert_eq!(ladder.cell(&rows[0], &maxima), Cell::Spread { spread: None });
    assert_eq!(ladder.spread_row(&rows), None);
    ladder.config.show_spread = false;
    let (rows, maxima) = ladder.visible_rows(&grid, 0, 0);
    assert_eq!(ladder.cell(&rows[0], &maxima), Cell::Divider);
    assert_eq!(ladder.vp_cell(&rows[0], &maxima, qty(0), true), VpCell::Divider);
}

#[test]
fn spread_is_rounded_to_the_smallest_increment() {
    let mut ladder = ladder(ViewMode::Original, true);
    ladder.raw_price_spread = Some(Price { units: 5 });
    assert_eq!(ladder.rounded_spread(), Some(Price { units: 6 }));
    ladder.raw_price_spread = Some(Price { units: i64::MAX });
    assert!(!ladder.can_round_spread());
    ladder.raw_price_spread = None;
    assert!(ladder.can_round_spread());
    ladder.ticker_info.min_ticksize = PriceStep { units: 0 };
    assert!(!ladder.can_round_spread());
}

#[test]
fn chase_trails_run_between_rows() {
    let grid = PriceGrid {
        best_bid: Price { units: 100 },
        best_ask: Price { units: 110 },
        tick: PriceStep { units: 10 },
    };
    let segment = Some((Price { units: 84 }, Price { units: 104 }));
    assert!(can_trail(&grid, segment, true));
    let bid = ChaseTrail { start: Some(3), end: 1 };
    assert_eq!(chase_trail(&grid, segment, true, Some(-1)), Some(bid));
    let ask = ChaseTrail { start: Some(2), end: -1 };
    assert_eq!(chase_trail(&grid, segment, false, Some(1)), Some(ask));
    assert_eq!(chase_trail(&grid, None, true, Some(-1)), None);
    assert!(can_trail(&grid, None, true));
    let high = Some((Price { units: 0 }, Price { units: i64::MAX }));
    assert!(!can_trail(&grid, high, false));
}

#[test]
fn chase_trail_falls_back_to_the_best_offer() {
    let grid = PriceGrid {
        best_bid: Price { units: i64::MIN },
        best_ask: Price { units: i64::MIN },
        tick: PriceStep { units: 1 },
    };
    let segment = Some((Price { units: i64::MIN }, Price { units: i64::MAX }));
    assert!(can_trail(&grid, segment, true));
    let trail = ChaseTrail { start: Some(-1), end: 5 };
    assert_eq!(chase_trail(&grid, segment, true, Some(5)), Some(trail));
    assert_eq!(chase_trail(&grid, segment, true, None), None);
}

#[test]
fn original_plan_gathers_the_screen() {
    let mut ladder = ladder(ViewMode::Original, true);
    let grid = ladder.build_price_grid().unwrap();
    let bid = Some((Price { units: 84 }, Price { units: 104 }));
    assert!(ladder.can_plan_original(&grid, -1, 2, bid, None));
    let plan = ladder.plan_original(&grid, -1, 2, bid, None);
    let rows: Vec<i32> = plan.cells.iter().map(|(idx, _)| *idx).collect();
    assert_eq!(rows, [-1, 0, 1, 2]);
    assert_eq!(plan.cells[1].1, Cell::Spread { spread: Some(Price { units: 4 }) });
    assert_eq!((plan.best_bid_row, plan.best_ask_row), (Some(1), Some(-1)));
    assert_eq!(plan.spread_row, Some(0));
    assert_eq!(plan.bid_trail, None);
    ladder.config.show_chase_tracker = true;
    let plan = ladder.plan_original(&grid, 1, 2, bid, None);
    assert_eq!(plan.bid_trail, Some(ChaseTrail { start: Some(3), end: 1 }));
    assert_eq!(plan.ask_trail, None);
    assert_eq!(plan.spread_row, None);
    let far = Some((Price { units: 0 }, Price { units: i64::MAX }));
    assert!(!ladder.can_plan_original(&grid, 1, 2, None, far));
}

#[test]
fn profile_plan_gathers_the_screen() {
    let ladder = ladder(ViewMode::StackedVP, true);
    let grid = ladder.build_price_grid().unwrap();
    assert!(ladder.can_plan_vp(&grid, 0, 2));
    let whole = ladder.plan_vp(&grid, 0, 2, true);
    assert_eq!(whole.spread_row, Some(0));
    assert_eq!(ladder.plan_vp(&grid, 1, 2, true).spread_row, None);
    let plan = whole.cells;
    assert_eq!(plan.len(), 3);
    let parts = VpBars::Stacked { ask_part: qty(9), bid_part: qty(0), whole: qty(9) };
    assert!(matches!(plan[2], (2, VpCell::Level { bars, .. }) if bars == parts));
    assert!(matches!(plan[1], (1, VpCell::Level { label: None, .. })));
}

#[test]
fn differences_beyond_the_range_are_refused() {
    let mut ladder = ladder(ViewMode::DeltaVP, true);
    let grid = ladder.build_price_grid().unwrap();
    ladder.insert_trades(&vec![
        Trade { time: 12, is_sell: false, price: Price { units: 100 }, qty: qty(i64::MAX) },
        Trade { time: 13, is_sell: true, price: Price { units: 100 }, qty: qty(-1) },
    ]);
    assert!(!ladder.can_plan_vp(&grid, 0, 2));
    assert!(ladder.can_plan_vp(&grid, 2, 2));
}

#[test]
fn profile_views_keep_the_left_side() {
    let ladder = ladder(ViewMode::StackedVP, true);
    let grid = ladder.build_price_grid().unwrap();
    let original = ladder.plan_original(&grid, -2, 3, None, None);
    for stacked in [true, false] {
        let profile = ladder.plan_vp(&grid, -2, 3, stacked);
        assert_eq!(original.spread_row, profile.spread_row);
        assert_eq!(original.cells.len(), profile.cells.len());
        for (a, b) in original.cells.iter().zip(&profile.cells) {
            assert_eq!(a.0, b.0);
            match (a.1, b.1) {
                (
                    Cell::Level { price, is_bid, order_bar, texts, .. },
                    VpCell::Level { price: p, is_bid: s, order_bar: o, order_text, .. },
                ) => {
                    assert_eq!((price, is_bid, order_bar), (p, s, o));
                    assert_eq!(texts.map(|texts| texts.order), order_text);
                }
                (Cell::Spread { spread }, VpCell::Spread { spread: s }) => assert_eq!(spread, s),
                (a, b) => panic!("{a:?} is not {b:?}"),
            }
        }
    }
}
