use orderflow::footprint::{ClusterKind, KlineTrades, NPoc};
use orderflow::kline::{
    default_cvd_ema_period, default_true, ClusterScaling, Config, CvdConfig, FootprintStudy,
    KlineChartKind, KlineDataPoint, Thousandths, TickGrouping, VolumeProfileConfig,
    VolumeProfileDisplay, VolumeProfileRange, VolumeProfileScaling,
};
use orderflow::market::{Kline, Trade};
use orderflow::text::decimal;
use orderflow::units::{Price, PriceStep, Qty};

fn bar() -> KlineDataPoint {
    let kline = Kline {
        time: 60_000,
        open: Price { units: 100 },
        high: Price { units: 130 },
        low: Price { units: 90 },
        close: Price { units: 120 },
        volume: Qty { units: 50 },
    };
    KlineDataPoint { kline, footprint: KlineTrades::new() }
}

fn trade(time: u64, price: i64, qty: i64) -> Trade {
    Trade { time, is_sell: false, price: Price { units: price }, qty: Qty { units: qty } }
}

#[test]
fn bar_gives_its_prices() {
    let bar = bar();
    assert_eq!(bar.last_price(), Price { units: 120 });
    assert_eq!(bar.value_high(), Price { units: 130 });
    assert_eq!(bar.value_low(), Price { units: 90 });
    assert_eq!(bar.kline().map(|k| k.time), Some(60_000));
}

#[test]
fn bar_takes_trades_into_nearest_bins() {
    let step = PriceStep { units: 10 };
    let mut bar = bar();
    assert!(bar.can_add_trade(&trade(1, 95, 4), step));
    bar.add_trade(&trade(1, 95, 4), step);
    bar.add_trade(&trade(3, 110, 6), step);
    assert_eq!((bar.first_trade_time(), bar.last_trade_time()), (Some(1), Some(3)));
    let (high, low) = (bar.value_high(), bar.value_low());
    assert_eq!(bar.max_cluster_qty(ClusterKind::VolumeProfile, high, low), Qty { units: 6 });
    bar.calculate_poc();
    assert_eq!(bar.poc_price(), Some(Price { units: 110 }));
    bar.set_poc_status(NPoc::Naked);
    assert_eq!(bar.footprint.poc.map(|poc| poc.status), Some(NPoc::Naked));
    bar.clear_trades();
    assert_eq!(bar.last_trade_time(), None);
    assert_eq!(bar.poc_price(), None);
    assert!(!bar.can_add_trade(&trade(1, i64::MAX, 4), step));
}

#[test]
fn cluster_kinds_have_names() {
    let names: Vec<String> = ClusterKind::ALL.iter().map(|kind| kind.label()).collect();
    assert_eq!(names, ["Bid/Ask", "Volume Profile", "Delta Profile"]);
    assert_eq!(ClusterKind::default(), ClusterKind::BidAsk);
}

#[test]
fn profile_choices_have_names() {
    let ranges: Vec<String> = VolumeProfileRange::all().iter().map(|range| range.label()).collect();
    assert_eq!(
        ranges,
        ["Session", "Last 50 bars", "Last 100 bars", "Last 200 bars", "Last 500 bars"]
    );
    let displays: Vec<String> = VolumeProfileDisplay::ALL.iter().map(|d| d.label()).collect();
    assert_eq!(displays, ["Bid / Ask", "Delta", "Total"]);
    let scalings: Vec<String> = VolumeProfileScaling::ALL.iter().map(|s| s.label()).collect();
    assert_eq!(scalings, ["Independent", "Visible Range"]);
}

#[test]
fn tick_groupings_multiply() {
    let multipliers: Vec<u32> = TickGrouping::ALL.iter().map(|t| t.multiplier()).collect();
    assert_eq!(multipliers, [1, 2, 5, 10, 20, 50]);
    assert_eq!(TickGrouping::T20.label(), "20 tick(s)");
    assert_eq!(TickGrouping::T1.label(), "1 tick(s)");
}

#[test]
fn defaults_are_as_offered() {
    assert_eq!(default_cvd_ema_period(), 14);
    assert!(default_true());
    assert_eq!(CvdConfig::default(), CvdConfig { ema_mode: false, ema_period: 14 });
    let config = Config::default();
    assert_eq!(config.volume_profile, None);
    assert!(config.show_crosshair);
    let profile = VolumeProfileConfig::default();
    assert_eq!(profile.tick_grouping, TickGrouping::T5);
    assert_eq!(profile.range, VolumeProfileRange::Session);
    assert_eq!(profile.display, VolumeProfileDisplay::BidAsk);
    assert_eq!(profile.scaling, VolumeProfileScaling::Independent);
}

#[test]
fn cluster_scalings_have_names() {
    let all = ClusterScaling::all(0.2f32);
    assert_eq!(all[1], ClusterScaling::Hybrid { weight: 0.2 });
    assert_eq!(all[0].label("0.20"), "Visible Range");
    assert_eq!(all[1].label("0.20"), "Hybrid (weight: 0.20)");
    assert_eq!(all[2].label("0.20"), "Per-candle");
    assert_eq!(ClusterScaling::<f32>::default(), ClusterScaling::VisibleRange);
}

#[test]
fn studies_are_told_apart() {
    let all = FootprintStudy::all();
    assert_eq!(all[0], FootprintStudy::NPoC { lookback: 80 });
    let imbalance =
        FootprintStudy::Imbalance { threshold: 200, color_scale: Some(400), ignore_zeros: true };
    assert_eq!(all[1], imbalance);
    assert!(all[0].is_same_type(&FootprintStudy::NPoC { lookback: 1 }));
    assert!(!all[0].is_same_type(&all[1]));
    let other =
        FootprintStudy::Imbalance { threshold: 1, color_scale: None, ignore_zeros: false };
    assert!(other.is_same_type(&all[1]));
    assert_eq!(all[0].label(), "Naked Point of Control");
    assert_eq!(all[1].label(), "Imbalance");
}

#[test]
fn chart_kinds_have_their_zoom_limits() {
    let candles: KlineChartKind<f32> = KlineChartKind::default();
    assert_eq!(candles, KlineChartKind::Candles);
    let footprint: KlineChartKind<f32> = KlineChartKind::Footprint {
        clusters: ClusterKind::BidAsk,
        scaling: ClusterScaling::VisibleRange,
        studies: vec![],
    };
    let limits = |kind: &KlineChartKind<f32>| {
        [
            kind.min_scaling(),
            kind.max_scaling(),
            kind.min_cell_width(),
            kind.max_cell_width(),
            kind.min_cell_height(),
            kind.max_cell_height(),
            kind.default_cell_width(),
        ]
    };
    assert_eq!(
        limits(&candles),
        [
            Thousandths(600),
            Thousandths(2_500),
            Thousandths(1_000),
            Thousandths(16_000),
            Thousandths(1),
            Thousandths(8_000),
            Thousandths(4_000),
        ]
    );
    assert_eq!(
        limits(&footprint),
        [
            Thousandths(400),
            Thousandths(1_200),
            Thousandths(80_000),
            Thousandths(360_000),
            Thousandths(1_000),
            Thousandths(90_000),
            Thousandths(80_000),
        ]
    );
}

#[test]
fn numbers_are_written_in_decimal() {
    assert_eq!(decimal(0), "0");
    assert_eq!(decimal(10), "10");
    assert_eq!(decimal(u64::MAX), "18446744073709551615");
}
