use orderflow::market::Trade;
use orderflow::trades::{check_group, TradeStore};
use orderflow::units::{Price, PriceStep, Qty};

const STEP: PriceStep = PriceStep { units: 10 };

fn trade(time: u64, is_sell: bool, price: i64, qty: i64) -> Trade {
    Trade { time, is_sell, price: Price { units: price }, qty: Qty { units: qty } }
}

fn some_trades() -> Vec<Trade> {
    vec![
        trade(100, false, 104, 1),
        trade(200, true, 104, 2),
        trade(300, false, 119, 4),
        trade(400, false, 110, 8),
    ]
}

fn at(store: &TradeStore, price: i64) -> (i64, i64) {
    let (buy, sell) = store.trade_qty_at(Price { units: price });
    (buy.units, sell.units)
}

#[test]
fn trades_stand_in_side_bins() {
    let mut store = TradeStore::new();
    assert!(store.is_empty());
    assert_eq!(store.price_range(), None);
    assert!(check_group(&some_trades(), STEP));
    store.insert_trades(&some_trades(), STEP);
    assert!(!store.is_empty());
    assert_eq!(at(&store, 100), (0, 2));
    assert_eq!(at(&store, 110), (9, 0));
    assert_eq!(at(&store, 120), (4, 0));
    assert_eq!(at(&store, 130), (0, 0));
    let range = (Price { units: 100 }, Price { units: 120 });
    assert_eq!(store.price_range(), Some(range));
}

#[test]
fn trades_are_grouped_anew_by_another_step() {
    let mut store = TradeStore::new();
    store.insert_trades(&some_trades(), STEP);
    store.rebuild_grouped(PriceStep { units: 100 });
    assert_eq!(at(&store, 100), (0, 2));
    assert_eq!(at(&store, 200), (13, 0));
    assert_eq!(store.raw.len(), 4);
}

#[test]
fn grouping_keeps_bought_and_sold_quantity() {
    for units in [1, 7, 10, 1000] {
        let mut store = TradeStore::new();
        store.insert_trades(&some_trades(), PriceStep { units });
        assert_eq!(store.grouped.flow(), (13, 2));
    }
}

#[test]
fn cleanup_drops_old_trades() {
    let mut store = TradeStore::new();
    store.insert_trades(&some_trades(), STEP);
    assert!(!store.maybe_cleanup(1_000, 500, false, STEP));
    assert_eq!(store.raw.len(), 4);
    assert!(!store.maybe_cleanup(600, 500, true, STEP));
    assert_eq!(store.raw.len(), 4);
    assert!(store.maybe_cleanup(700, 400, true, STEP));
    assert_eq!(store.raw.len(), 2);
    assert_eq!(at(&store, 100), (0, 0));
    assert_eq!(at(&store, 110), (8, 0));
    assert!(!store.maybe_cleanup(100, 400, true, STEP));
}

#[test]
fn retained_trades_are_not_older_than_asked() {
    let mut store = TradeStore::new();
    store.insert_trades(&some_trades(), STEP);
    let times: Vec<u64> = store.kept_trades(500, 300).iter().map(|trade| trade.time).collect();
    assert_eq!(times, [200, 300, 400]);
}

#[test]
fn bins_beyond_the_range_are_refused() {
    assert!(!check_group(&vec![trade(1, false, i64::MAX, 1)], STEP));
    assert!(check_group(&vec![trade(1, true, i64::MAX, 1)], STEP));
    let full = vec![trade(1, false, 100, i64::MAX), trade(2, false, 100, 1)];
    assert!(!check_group(&full, STEP));
}
