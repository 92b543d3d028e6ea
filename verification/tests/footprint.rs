use orderflow::footprint::{ClusterKind, GroupedTrades, KlineTrades, NPoc, PointOfControl};
use orderflow::market::Trade;
use orderflow::units::{Price, PriceStep, Qty};

const STEP: PriceStep = PriceStep { units: 10 };

fn buy(time: u64, price: i64, qty: i64) -> Trade {
    Trade { time, is_sell: false, price: Price { units: price }, qty: Qty { units: qty } }
}

fn sell(time: u64, price: i64, qty: i64) -> Trade {
    Trade { is_sell: true, ..buy(time, price, qty) }
}

fn nearest(trades: &[Trade]) -> KlineTrades {
    let mut footprint = KlineTrades::new();
    for trade in trades {
        assert!(footprint.can_add_to_nearest_bin(trade, STEP));
        footprint.add_trade_to_nearest_bin(trade, STEP);
    }
    footprint
}

#[test]
fn group_counts_each_side() {
    let mut group = GroupedTrades::new(&buy(5, 100, 3));
    group.add_trade(&sell(6, 100, 4));
    group.add_trade(&sell(9, 100, 1));
    assert_eq!(group.buy_qty, Qty { units: 3 });
    assert_eq!(group.sell_qty, Qty { units: 5 });
    assert_eq!((group.buy_count, group.sell_count), (1, 2));
    assert_eq!((group.first_time, group.last_time), (5, 9));
    assert_eq!(group.total_qty(), Qty { units: 8 });
    assert_eq!(group.delta_qty(), Qty { units: -2 });
}

#[test]
fn group_of_a_sell_has_no_buys() {
    let group = GroupedTrades::new(&sell(7, 100, 4));
    assert_eq!(group.buy_qty, Qty::default());
    assert_eq!((group.buy_count, group.sell_count), (0, 1));
    assert_eq!(GroupedTrades::default().total_qty(), Qty::default());
}

#[test]
fn cluster_quantity_depends_on_the_kind() {
    let mut group = GroupedTrades::new(&buy(1, 100, 3));
    group.add_trade(&sell(2, 100, 5));
    assert_eq!(group.max_cluster_qty(ClusterKind::BidAsk), Qty { units: 5 });
    assert_eq!(group.max_cluster_qty(ClusterKind::DeltaProfile), Qty { units: 2 });
    assert_eq!(group.max_cluster_qty(ClusterKind::VolumeProfile), Qty { units: 8 });
}

#[test]
fn full_group_refuses_a_trade() {
    let group = GroupedTrades::new(&buy(1, 100, i64::MAX));
    assert!(!group.can_add(&buy(2, 100, 1)));
    assert!(group.can_add(&sell(2, 100, 1)));
}

#[test]
fn nearest_bins_ignore_the_side() {
    let footprint = nearest(&[buy(1, 104, 2), sell(2, 104, 3), buy(3, 105, 4)]);
    assert_eq!(footprint.trades.len(), 2);
    let low = footprint.trades[&100];
    assert_eq!((low.buy_qty.units, low.sell_qty.units), (2, 3));
    assert_eq!(footprint.trades[&110].buy_qty.units, 4);
}

#[test]
fn side_bins_part_the_sides() {
    let mut footprint = KlineTrades::default();
    footprint.add_trade_to_side_bin(&buy(1, 104, 2), STEP);
    footprint.add_trade_to_side_bin(&sell(2, 104, 3), STEP);
    assert_eq!(footprint.trades[&110].buy_qty.units, 2);
    assert_eq!(footprint.trades[&100].sell_qty.units, 3);
}

#[test]
fn bin_without_room_is_refused() {
    let footprint = nearest(&[buy(1, 100, i64::MAX)]);
    assert!(!footprint.can_add_to_nearest_bin(&buy(2, 102, 1), STEP));
    assert!(footprint.can_add_to_nearest_bin(&buy(2, 105, 1), STEP));
    assert!(!footprint.can_add_to_nearest_bin(&buy(2, i64::MAX, 1), STEP));
}

#[test]
fn trade_times_span_all_bins() {
    let footprint = nearest(&[buy(4, 100, 1), buy(2, 200, 1), sell(9, 300, 1), buy(7, 100, 1)]);
    assert_eq!(footprint.first_trade_t(), Some(2));
    assert_eq!(footprint.last_trade_t(), Some(9));
    assert_eq!(KlineTrades::new().first_trade_t(), None);
    assert_eq!(KlineTrades::new().last_trade_t(), None);
}

#[test]
fn flow_sums_all_bins() {
    let footprint = nearest(&[buy(1, 100, 5), sell(2, 110, 7), buy(3, 120, 1)]);
    assert_eq!(footprint.flow(), (6, 7));
    assert_eq!(KlineTrades::new().flow(), (0, 0));
}

#[test]
fn cluster_maximum_is_taken_between_the_prices() {
    let footprint = nearest(&[buy(1, 100, 5), sell(2, 110, 7), buy(3, 120, 9), sell(3, 120, 1)]);
    let high = Price { units: 110 };
    let low = Price { units: 100 };
    assert_eq!(footprint.max_cluster_qty(ClusterKind::BidAsk, high, low), Qty { units: 7 });
    let all = Price { units: 120 };
    assert_eq!(footprint.max_cluster_qty(ClusterKind::VolumeProfile, all, low), Qty { units: 10 });
    assert_eq!(footprint.max_cluster_qty(ClusterKind::DeltaProfile, all, low), Qty { units: 8 });
    assert_eq!(footprint.max_cluster_qty(ClusterKind::BidAsk, low, high), Qty::default());
}

#[test]
fn maximum_by_a_function_is_not_negative() {
    let footprint = nearest(&[sell(2, 110, 7)]);
    let high = Price { units: 110 };
    let low = Price { units: 100 };
    assert_eq!(footprint.max_qty_by(high, low, |g| g.delta_qty()), Qty::default());
    assert_eq!(footprint.max_qty_by(high, low, |g| g.sell_qty), Qty { units: 7 });
}

#[test]
fn point_of_control_is_the_busiest_bin() {
    let mut footprint = nearest(&[buy(1, 100, 5), sell(2, 110, 7), buy(3, 120, 6)]);
    assert_eq!(footprint.poc_price(), None);
    footprint.calculate_poc();
    assert_eq!(
        footprint.poc,
        Some(PointOfControl {
            price: Price { units: 110 },
            volume: Qty { units: 7 },
            status: NPoc::Unset,
        })
    );
    assert_eq!(footprint.poc_price(), Some(Price { units: 110 }));
}

#[test]
fn point_of_control_without_volume_is_zero() {
    let mut footprint = nearest(&[buy(1, 100, 0)]);
    footprint.calculate_poc();
    assert_eq!(footprint.poc, Some(PointOfControl::default()));
}

#[test]
fn point_of_control_needs_trades() {
    let mut footprint = KlineTrades::new();
    footprint.calculate_poc();
    assert_eq!(footprint.poc, None);
    footprint.set_poc_status(NPoc::Naked);
    assert_eq!(footprint.poc, None);
}

#[test]
fn clearing_forgets_bins_and_point_of_control() {
    let mut footprint = nearest(&[buy(1, 100, 5)]);
    footprint.calculate_poc();
    footprint.clear();
    assert!(footprint.trades.is_empty());
    assert_eq!(footprint.poc, None);
}

#[test]
fn status_of_the_point_of_control_changes() {
    let mut footprint = nearest(&[buy(1, 100, 5)]);
    footprint.calculate_poc();
    let mut status = NPoc::default();
    status.unfilled();
    assert_eq!(status, NPoc::Naked);
    status.filled(42);
    footprint.set_poc_status(status);
    let poc = footprint.poc.unwrap();
    assert_eq!(poc.status, NPoc::Filled { at: 42 });
    assert_eq!(poc.volume, Qty { units: 5 });
}
