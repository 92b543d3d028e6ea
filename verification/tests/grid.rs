use orderflow::grid::PriceGrid;
use orderflow::units::{Price, PriceStep};

fn grid() -> PriceGrid {
    PriceGrid {
        best_bid: Price { units: 100 },
        best_ask: Price { units: 110 },
        tick: PriceStep { units: 10 },
    }
}

#[test]
fn rows_have_prices_except_the_spread() {
    let grid = grid();
    assert_eq!(grid.index_to_price(0), None);
    assert_eq!(grid.index_to_price(1), Some(Price { units: 100 }));
    assert_eq!(grid.index_to_price(3), Some(Price { units: 80 }));
    assert_eq!(grid.index_to_price(-1), Some(Price { units: 110 }));
    assert_eq!(grid.index_to_price(-3), Some(Price { units: 130 }));
}

#[test]
fn prices_have_rows() {
    let grid = grid();
    for idx in [-40, -2, -1, 1, 2, 40] {
        assert_eq!(grid.price_to_index(grid.index_to_price(idx).unwrap()), Some(idx));
    }
    assert_eq!(grid.price_to_index(Price { units: 105 }), Some(0));
    assert_eq!(grid.price_to_index(Price { units: 119 }), Some(-1));
    assert_eq!(grid.price_to_index(Price { units: 91 }), Some(1));
}

#[test]
fn row_numbers_keep_their_low_bits() {
    let fine = PriceGrid {
        best_bid: Price { units: 0 },
        best_ask: Price { units: 1 },
        tick: PriceStep { units: 1 },
    };
    let far = Price { units: -(1 << 32) };
    assert_eq!(fine.price_to_index(far), Some(1));
    assert!(!fine.can_index(Price { units: 1 << 31 }));
    assert!(fine.can_index(Price { units: (1 << 31) + 1 }));
    assert!(fine.can_index(Price { units: -(1 << 31) }));
}

#[test]
fn prices_out_of_reach_have_no_row() {
    let fine = PriceGrid {
        best_bid: Price { units: i64::MIN },
        best_ask: Price { units: i64::MIN + 1 },
        tick: PriceStep { units: 1 },
    };
    assert_eq!(fine.price_to_index(Price { units: i64::MAX }), Some(1));
    let wide = PriceGrid {
        best_bid: Price { units: i64::MIN },
        best_ask: Price { units: i64::MIN },
        tick: PriceStep { units: 1 },
    };
    assert_eq!(wide.price_to_index(Price { units: i64::MAX }), None);
}

#[test]
fn rows_out_of_range_have_no_price() {
    let high = PriceGrid {
        best_bid: Price { units: i64::MAX - 17 },
        best_ask: Price { units: i64::MAX - 7 },
        tick: PriceStep { units: 10 },
    };
    assert!(high.can_price(-1));
    assert!(!high.can_price(-2));
    assert!(high.can_price(i32::MAX));
}
