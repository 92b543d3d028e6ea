use orderflow::book::{best_price_of, check_regroup, GroupedDepth, Side};
use orderflow::units::{Price, PriceStep, Qty};
use std::collections::BTreeMap;

const STEP: PriceStep = PriceStep { units: 10 };

fn levels(entries: &[(i64, i64)]) -> BTreeMap<i64, Qty> {
    entries.iter().map(|(price, qty)| (*price, Qty { units: *qty })).collect()
}

fn bins(depth: &GroupedDepth) -> Vec<(i64, i64)> {
    depth.orders.iter().map(|(bin, qty)| (*bin, qty.units)).collect()
}

#[test]
fn bids_are_grouped_downwards() {
    let raw = levels(&[(95, 1), (100, 2), (101, 4), (109, 8)]);
    let mut depth = GroupedDepth::new();
    assert!(check_regroup(&raw, Side::Bid, STEP));
    depth.regroup_from_raw(&raw, Side::Bid, STEP);
    assert_eq!(bins(&depth), [(90, 1), (100, 14)]);
    assert_eq!(depth.best_price(Side::Bid), Some(Price { units: 100 }));
}

#[test]
fn asks_are_grouped_upwards() {
    let raw = levels(&[(95, 1), (100, 2), (101, 4), (109, 8)]);
    let mut depth = GroupedDepth::new();
    depth.regroup_from_raw(&raw, Side::Ask, STEP);
    assert_eq!(bins(&depth), [(100, 3), (110, 12)]);
    assert_eq!(depth.best_price(Side::Ask), Some(Price { units: 100 }));
}

#[test]
fn regrouping_forgets_the_former_orders() {
    let mut depth = GroupedDepth::new();
    depth.regroup_from_raw(&levels(&[(95, 1)]), Side::Ask, STEP);
    depth.regroup_from_raw(&levels(&[(205, 3)]), Side::Ask, STEP);
    assert_eq!(bins(&depth), [(210, 3)]);
    assert_eq!(depth.qty_at(Price { units: 210 }), Qty { units: 3 });
    assert_eq!(depth.qty_at(Price { units: 100 }), Qty::default());
}

#[test]
fn grouping_keeps_the_total() {
    let raw = levels(&[(1, 5), (12, 6), (13, 7), (29, 8), (-4, 9)]);
    for side in [Side::Bid, Side::Ask] {
        for units in [1, 3, 10, 1000] {
            let mut depth = GroupedDepth::new();
            depth.regroup_from_raw(&raw, side, PriceStep { units });
            assert_eq!(depth.orders.values().map(|qty| qty.units).sum::<i64>(), 35);
            assert!(depth.orders.keys().all(|bin| bin % units == 0));
        }
    }
}

#[test]
fn grouped_book_does_not_cross() {
    let mut bids = GroupedDepth::new();
    let mut asks = GroupedDepth::new();
    bids.regroup_from_raw(&levels(&[(104, 1)]), Side::Bid, STEP);
    asks.regroup_from_raw(&levels(&[(105, 1)]), Side::Ask, STEP);
    assert_eq!(bids.best_price(Side::Bid), Some(Price { units: 100 }));
    assert_eq!(asks.best_price(Side::Ask), Some(Price { units: 110 }));
}

#[test]
fn best_price_depends_on_the_side() {
    let raw = levels(&[(95, 1), (100, 2)]);
    assert_eq!(best_price_of(&raw, Side::Bid), Some(Price { units: 100 }));
    assert_eq!(best_price_of(&raw, Side::Ask), Some(Price { units: 95 }));
    assert_eq!(best_price_of(&BTreeMap::new(), Side::Ask), None);
}

#[test]
fn sums_beyond_the_range_are_refused() {
    let raw = levels(&[(101, i64::MAX), (102, 1)]);
    assert!(!check_regroup(&raw, Side::Bid, STEP));
    assert!(check_regroup(&raw, Side::Bid, PriceStep { units: 1 }));
    assert!(!check_regroup(&levels(&[(i64::MAX, 1)]), Side::Ask, STEP));
}
