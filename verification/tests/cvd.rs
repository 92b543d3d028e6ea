use orderflow::cvd::{CvdIndicator, CvdPoint, PlotData};
use orderflow::footprint::KlineTrades;
use orderflow::kline::{CvdConfig, KlineDataPoint};
use orderflow::market::{Kline, Trade};
use orderflow::units::{Price, PriceStep, Qty};
use std::collections::BTreeMap;

type Indicator = CvdIndicator<(f32, f32), f32>;

const STEP: PriceStep = PriceStep { units: 1 };

fn advance(period: u32, ema: (f32, f32), buy: i128, sell: i128) -> ((f32, f32), f32) {
    let alpha = 2.0 / (period as f32 + 1.0);
    let next = (
        alpha * buy as f32 + (1.0 - alpha) * ema.0,
        alpha * sell as f32 + (1.0 - alpha) * ema.1,
    );
    (next, if next.1 == 0.0 { 1.0 } else { next.0 / next.1 })
}

fn footprint(buy: i64, sell: i64) -> KlineTrades {
    let mut footprint = KlineTrades::new();
    for (is_sell, price, qty) in [(false, 10, buy), (true, 11, sell)] {
        let price = Price { units: price };
        let trade = Trade { time: 0, is_sell, price, qty: Qty { units: qty } };
        footprint.add_trade_to_nearest_bin(&trade, STEP);
    }
    footprint
}

fn time_based(bars: &[(u64, i64, i64)]) -> PlotData {
    let zero = Price { units: 0 };
    let mut datapoints = BTreeMap::new();
    for (time, buy, sell) in bars {
        let volume = Qty { units: buy + sell };
        let kline = Kline { time: *time, open: zero, high: zero, low: zero, close: zero, volume };
        datapoints.insert(*time, KlineDataPoint { kline, footprint: footprint(*buy, *sell) });
    }
    PlotData::TimeBased { datapoints }
}

fn tick_based(bars: &[(i64, i64)]) -> PlotData {
    PlotData::TickBased { datapoints: bars.iter().map(|(b, s)| footprint(*b, *s)).collect() }
}

fn deltas(indicator: &Indicator) -> Vec<(u64, i128)> {
    indicator
        .data
        .iter()
        .map(|(key, point)| match point {
            CvdPoint::Delta(delta) => (*key, *delta),
            CvdPoint::Ratio(_) => panic!("not in classic mode"),
        })
        .collect()
}

#[test]
fn new_indicator_is_classic_and_empty() {
    let indicator = Indicator::new((0.0, 0.0));
    assert!(indicator.data.is_empty());
    assert_eq!(indicator.config, CvdConfig { ema_mode: false, ema_period: 14 });
    assert_eq!(indicator.last_value(), None);
}

#[test]
fn classic_mode_accumulates_over_time_bars() {
    let mut indicator = Indicator::new((0.0, 0.0));
    let source = time_based(&[(60, 5, 2), (120, 1, 4), (180, 10, 0)]);
    assert!(indicator.can_rebuild(&source));
    indicator.rebuild(&source, (0.0, 0.0), &advance);
    assert_eq!(deltas(&indicator), [(60, 3), (120, 0), (180, 10)]);
    assert_eq!(indicator.session_cvd, 10);
    assert_eq!(indicator.last_value(), Some(CvdPoint::Delta(10)));
}

#[test]
fn classic_mode_numbers_tick_bars() {
    let mut indicator = Indicator::new((0.0, 0.0));
    indicator.rebuild(&tick_based(&[(5, 2), (1, 4)]), (0.0, 0.0), &advance);
    assert_eq!(deltas(&indicator), [(0, 3), (1, 0)]);
}

#[test]
fn live_time_bar_update_equals_a_rebuild() {
    let before = time_based(&[(60, 5, 2), (120, 1, 4)]);
    let changed = time_based(&[(60, 5, 2), (120, 8, 4)]);
    let grown = time_based(&[(60, 5, 2), (120, 8, 4), (180, 0, 1)]);
    let mut indicator = Indicator::new((0.0, 0.0));
    indicator.rebuild(&before, (0.0, 0.0), &advance);
    for (len, source) in [(2, changed), (2, grown)] {
        assert!(indicator.can_insert_trades(len, &source));
        assert!(indicator.on_insert_trades(len, &source, (0.0, 0.0), &advance));
        let mut fresh = Indicator::new((0.0, 0.0));
        fresh.rebuild(&source, (0.0, 0.0), &advance);
        assert_eq!(deltas(&indicator), deltas(&fresh));
        assert_eq!(indicator.session_cvd, fresh.session_cvd);
    }
    assert_eq!(deltas(&indicator), [(60, 3), (120, 7), (180, 6)]);
}

#[test]
fn open_tick_bars_update_equals_a_rebuild() {
    let before = tick_based(&[(5, 2), (1, 4)]);
    let after = tick_based(&[(5, 2), (2, 4), (7, 0), (0, 3)]);
    let mut indicator = Indicator::new((0.0, 0.0));
    indicator.rebuild(&before, (0.0, 0.0), &advance);
    assert!(indicator.can_insert_trades(2, &after));
    assert!(indicator.on_insert_trades(2, &after, (0.0, 0.0), &advance));
    assert_eq!(deltas(&indicator), [(0, 3), (1, 1), (2, 8), (3, 5)]);
    assert_eq!(indicator.session_cvd, 5);
}

#[test]
fn first_tick_bars_start_at_zero() {
    let mut indicator = Indicator::new((0.0, 0.0));
    let source = tick_based(&[(5, 2)]);
    assert!(indicator.on_insert_trades(0, &source, (0.0, 0.0), &advance));
    assert_eq!(deltas(&indicator), [(0, 3)]);
}

#[test]
fn trades_without_time_bars_change_nothing() {
    let mut indicator = Indicator::new((0.0, 0.0));
    assert!(!indicator.on_insert_trades(0, &time_based(&[]), (0.0, 0.0), &advance));
    assert!(indicator.data.is_empty());
}

#[test]
fn another_configuration_drops_the_points() {
    let mut indicator = Indicator::new((0.0, 0.0));
    indicator.rebuild(&tick_based(&[(5, 2)]), (0.0, 0.0), &advance);
    assert!(!indicator.set_cvd_config(CvdConfig { ema_mode: false, ema_period: 14 }));
    assert_eq!(indicator.data.len(), 1);
    assert!(indicator.set_cvd_config(CvdConfig { ema_mode: false, ema_period: 15 }));
    assert!(indicator.data.is_empty());
}

#[test]
fn ratio_mode_averages_every_bar() {
    let mut indicator = Indicator::new((0.0, 0.0));
    indicator.set_cvd_config(CvdConfig { ema_mode: true, ema_period: 3 });
    let source = tick_based(&[(4, 2), (8, 2)]);
    indicator.rebuild(&source, (0.0, 0.0), &advance);
    let points: Vec<CvdPoint<f32>> = indicator.data.values().copied().collect();
    assert_eq!(points, [CvdPoint::Ratio(2.0), CvdPoint::Ratio(5.0 / 1.5)]);
    assert_eq!(indicator.ema, (5.0, 1.5));
    assert_eq!(indicator.session_cvd, 0);
    let grown = tick_based(&[(4, 2), (8, 2), (1, 1)]);
    assert!(indicator.on_insert_trades(2, &grown, (0.0, 0.0), &advance));
    assert_eq!(indicator.ema, (3.0, 1.25));
    assert_eq!(indicator.data.len(), 3);
}

#[test]
fn ratio_without_sells_is_one() {
    let mut indicator = Indicator::new((0.0, 0.0));
    indicator.set_cvd_config(CvdConfig { ema_mode: true, ema_period: 3 });
    indicator.rebuild(&tick_based(&[(4, 0)]), (0.0, 0.0), &advance);
    assert_eq!(indicator.last_value(), Some(CvdPoint::Ratio(1.0)));
}

#[test]
fn one_bar_advances_the_state() {
    let mut indicator = Indicator::new((0.0, 0.0));
    assert_eq!(indicator.compute_bar(&footprint(7, 2), &advance), CvdPoint::Delta(5));
    assert_eq!(indicator.compute_bar(&footprint(0, 9), &advance), CvdPoint::Delta(-4));
    assert!(indicator.data.is_empty());
}

#[test]
fn trades_move_the_delta_by_their_quantity() {
    let mut indicator = Indicator::new((0.0, 0.0));
    let mut bar = footprint(7, 2);
    let price = Price { units: 10 };
    bar.add_trade_to_nearest_bin(
        &Trade { time: 1, is_sell: false, price, qty: Qty { units: 3 } },
        STEP,
    );
    assert_eq!(indicator.compute_bar(&bar, &advance), CvdPoint::Delta(8));
    bar.add_trade_to_nearest_bin(
        &Trade { time: 2, is_sell: true, price, qty: Qty { units: 4 } },
        STEP,
    );
    let mut fresh = Indicator::new((0.0, 0.0));
    assert_eq!(fresh.compute_bar(&bar, &advance), CvdPoint::Delta(4));
}

#[test]
fn taking_up_trades_again_changes_nothing() {
    let time = time_based(&[(60, 5, 2), (120, 1, 4)]);
    let tick = tick_based(&[(5, 2), (2, 4), (7, 0)]);
    for ema_mode in [false, true] {
        for (len, source) in [(2, &time), (2, &tick)] {
            let mut indicator = Indicator::new((0.0, 0.0));
            indicator.set_cvd_config(CvdConfig { ema_mode, ema_period: 3 });
            indicator.rebuild(source, (0.0, 0.0), &advance);
            indicator.on_insert_trades(len, source, (0.0, 0.0), &advance);
            let (data, session, ema) =
                (indicator.data.clone(), indicator.session_cvd, indicator.ema);
            indicator.on_insert_trades(len, source, (0.0, 0.0), &advance);
            assert_eq!(indicator.data, data);
            assert_eq!((indicator.session_cvd, indicator.ema), (session, ema));
        }
    }
}

#[test]
fn rebuild_forgets_what_was_there() {
    let source = tick_based(&[(4, 2), (8, 2)]);
    let config = CvdConfig { ema_mode: true, ema_period: 3 };
    let mut fresh = Indicator::new((0.0, 0.0));
    fresh.set_cvd_config(config);
    fresh.rebuild(&source, (0.0, 0.0), &advance);
    let mut used = Indicator::new((0.0, 0.0));
    used.rebuild(&tick_based(&[(1, 1), (2, 2), (3, 3)]), (0.0, 0.0), &advance);
    used.set_cvd_config(config);
    used.rebuild(&source, (0.0, 0.0), &advance);
    assert_eq!(used.data, fresh.data);
    assert_eq!((used.session_cvd, used.ema), (fresh.session_cvd, fresh.ema));
    used.rebuild(&source, (0.0, 0.0), &advance);
    assert_eq!(used.data, fresh.data);
}
