//! The rows of a price ladder: which price stands on which row.
//!
//! Row 0 is the spread. Row 1 is the best bid and every further row is one tick
//! lower; row -1 is the best ask and every row before it is one tick higher.

use crate::units::{fits, law_steps_round_trip, steps_between, Price, PriceStep};
use vstd::prelude::*;

verus! {

/// Where the ladder is centred, and how far its rows are apart.
#[derive(Clone, Copy, Debug, PartialEq, Eq, Structural)]
pub struct PriceGrid {
    pub best_bid: Price,
    pub best_ask: Price,
    pub tick: PriceStep,
}

impl PriceGrid {
    /// Best bid and best ask are neighbours.
    pub open spec fn wf(self) -> bool {
        &&& self.tick.wf()
        &&& self.best_ask.units == self.best_bid.units + self.tick.units
    }

    /// The price on a row other than the spread row.
    pub open spec fn row_price(self, idx: int) -> int {
        if idx > 0 {
            self.best_bid.units - (idx - 1) * self.tick.units
        } else {
            self.best_ask.units + (-1 - idx) * self.tick.units
        }
    }

    /// How many rows a price is away from the spread row.
    pub open spec fn rows_away(self, price: Price) -> Option<u64> {
        if price.units >= self.best_ask.units {
            steps_between(
                self.best_ask.units as int,
                price.units as int,
                self.tick.units as int,
            )
        } else if price.units <= self.best_bid.units {
            steps_between(
                price.units as int,
                self.best_bid.units as int,
                self.tick.units as int,
            )
        } else {
            Some(0)
        }
    }

    /// The row that a price stands on. Rows are numbered in 32 bits: of a larger
    /// number only the low bits remain.
    pub open spec fn row_of(self, price: Price) -> Option<i32> {
        match self.rows_away(price) {
            Some(n) => if price.units >= self.best_ask.units {
                Some((-(n as i32)) as i32)
            } else {
                Some(n as i32)
            },
            None => None,
        }
    }

    /// Whether the price on a row other than the spread row can be held.
    pub fn can_price(&self, idx: i32) -> (r: bool)
        requires
            idx != 0,
        ensures
            r == fits(self.row_price(idx as int)),
    {
        let off: i128 = if idx > 0 {
            idx as i128 - 1
        } else {
            -1 - idx as i128
        };
        let tick: i128 = self.tick.units as i128;
        assert(-0x1_0000_0000 * 0x8000_0000_0000_0000 <= off * tick <= 0x1_0000_0000
            * 0x8000_0000_0000_0000) by (nonlinear_arith)
            requires
                0 <= off <= 0x1_0000_0000,
                -0x8000_0000_0000_0000 <= tick <= 0x8000_0000_0000_0000,
        ;
        let price: i128 = if idx > 0 {
            self.best_bid.units as i128 - off * tick
        } else {
            self.best_ask.units as i128 + off * tick
        };
        i64::MIN as i128 <= price && price <= i64::MAX as i128
    }

    /// Returns None for index 0 (spread row)
    pub fn index_to_price(&self, idx: i32) -> (r: Option<Price>)
        requires
            idx != 0 ==> fits(self.row_price(idx as int)),
        ensures
            match r {
                Some(price) => idx != 0 && price.units == self.row_price(idx as int),
                None => idx == 0,
            },
    {
        if idx == 0 {
            return None;
        }
        if idx > 0 {
            let off: i64 = idx as i64 - 1;
            assert(self.best_bid.units + (-off) * self.tick.units == self.best_bid.units - (idx - 1)
                * self.tick.units) by (nonlinear_arith)
                requires
                    off == idx - 1,
            ;
            Some(self.best_bid.add_steps(-off, self.tick))
        } else {
            let off: i64 = -1 - idx as i64;
            Some(self.best_ask.add_steps(off, self.tick))
        }
    }

    /// Whether the row of a price can be held. Only one row above the best ask cannot:
    /// the one whose number, cut to 32 bits, has no positive counterpart.
    pub open spec fn has_row(self, price: Price) -> bool {
        price.units >= self.best_ask.units ==> (self.rows_away(price) matches Some(n) ==> n as i32
            != i32::MIN)
    }

    /// Whether [`PriceGrid::price_to_index`] can hold the row.
    pub fn can_index(&self, price: Price) -> (r: bool)
        requires
            self.tick.wf(),
        ensures
            r == self.has_row(price),
    {
        if price.units >= self.best_ask.units {
            match Price::steps_between_inclusive(self.best_ask, price, self.tick) {
                Some(steps) => #[verifier::truncate] (steps as i32) != i32::MIN,
                None => true,
            }
        } else {
            true
        }
    }

    /// The row of a price: negative at or above the best ask, positive at or below
    /// the best bid, zero between them.
    pub fn price_to_index(&self, price: Price) -> (r: Option<i32>)
        requires
            self.tick.wf(),
            self.has_row(price),
        ensures
            r == self.row_of(price),
    {
        if price.units >= self.best_ask.units {
            match Price::steps_between_inclusive(self.best_ask, price, self.tick) {
                Some(steps) => {
                    let row = #[verifier::truncate] (steps as i32);
                    Some(-row)
                },
                None => None,
            }
        } else if price.units <= self.best_bid.units {
            match Price::steps_between_inclusive(price, self.best_bid, self.tick) {
                Some(steps) => Some(#[verifier::truncate] (steps as i32)),
                None => None,
            }
        } else {
            Some(0)
        }
    }
}

/// The price on a row stands on that row.
pub proof fn law_row_round_trip(grid: PriceGrid, idx: i32)
    requires
        grid.wf(),
        idx != 0,
        idx > i32::MIN,
        fits(grid.row_price(idx as int)),
    ensures
        grid.row_of(Price { units: grid.row_price(idx as int) as i64 }) == Some(idx),
{
    let s = grid.tick.units as int;
    let p = grid.row_price(idx as int);
    if idx > 0 {
        let n = idx - 1;
        law_steps_round_trip(p, n, s);
        assert(p + n * s == grid.best_bid.units);
        assert(n * s >= 0) by (nonlinear_arith)
            requires
                n >= 0,
                s > 0,
        ;
    } else {
        let n = -1 - idx;
        law_steps_round_trip(grid.best_ask.units as int, n, s);
        assert(n * s >= 0) by (nonlinear_arith)
            requires
                n >= 0,
                s > 0,
        ;
    }
}

/// The price on the row of a price is that price if it lies on the grid, and the
/// next one towards the spread if it does not. A price between best bid and best
/// ask has the spread row.
pub proof fn law_row_brackets(grid: PriceGrid, price: Price)
    requires
        grid.wf(),
        grid.rows_away(price) matches Some(n) && n <= i32::MAX,
    ensures
        grid.row_of(price) is Some,
        ({
            let idx = grid.row_of(price)->0 as int;
            if price.units >= grid.best_ask.units {
                idx < 0 && grid.row_price(idx) <= price.units < grid.row_price(idx)
                    + grid.tick.units
            } else if price.units <= grid.best_bid.units {
                idx > 0 && grid.row_price(idx) - grid.tick.units < price.units <= grid.row_price(
                    idx,
                )
            } else {
                idx == 0
            }
        }),
{
    let s = grid.tick.units as int;
    if price.units >= grid.best_ask.units {
        let d = price.units - grid.best_ask.units;
        vstd::arithmetic::div_mod::lemma_fundamental_div_mod(d, s);
        vstd::arithmetic::div_mod::lemma_mod_bound(d, s);
        vstd::arithmetic::div_mod::lemma_div_pos_is_pos(d, s);
        vstd::arithmetic::mul::lemma_mul_is_commutative(s, d / s);
    } else if price.units <= grid.best_bid.units {
        let d = grid.best_bid.units - price.units;
        vstd::arithmetic::div_mod::lemma_fundamental_div_mod(d, s);
        vstd::arithmetic::div_mod::lemma_mod_bound(d, s);
        vstd::arithmetic::div_mod::lemma_div_pos_is_pos(d, s);
        vstd::arithmetic::mul::lemma_mul_is_commutative(s, d / s);
    }
}

/// Prices fall from each row to the next.
pub proof fn law_rows_descend(grid: PriceGrid, upper: int, lower: int)
    requires
        grid.wf(),
        upper < lower,
        upper != 0,
        lower != 0,
    ensures
        grid.row_price(upper) > grid.row_price(lower),
{
    let s = grid.tick.units as int;
    if upper < 0 && lower < 0 {
        assert((-1 - upper) * s > (-1 - lower) * s) by (nonlinear_arith)
            requires
                upper < lower,
                s > 0,
        ;
    } else if upper > 0 {
        assert((lower - 1) * s > (upper - 1) * s) by (nonlinear_arith)
            requires
                upper < lower,
                s > 0,
        ;
    } else {
        assert((-1 - upper) * s >= 0 && (lower - 1) * s >= 0) by (nonlinear_arith)
            requires
                upper < 0,
                lower > 0,
                s > 0,
        ;
    }
}

/// Prices on the rows in plain terms: the best bid right below the spread, the best ask
/// right above it, and one tick from each row to the next on either side.
pub proof fn law_rows_are_ticks_apart(grid: PriceGrid, idx: int)
    ensures
        grid.row_price(1) == grid.best_bid.units,
        grid.row_price(-1) == grid.best_ask.units,
        idx > 0 ==> grid.row_price(idx + 1) == grid.row_price(idx) - grid.tick.units,
        idx < 0 ==> grid.row_price(idx - 1) == grid.row_price(idx) + grid.tick.units,
{
    let s = grid.tick.units as int;
    if idx > 0 {
        assert((idx + 1 - 1) * s == (idx - 1) * s + s) by (nonlinear_arith);
    } else if idx < 0 {
        assert((-1 - (idx - 1)) * s == (-1 - idx) * s + s) by (nonlinear_arith);
    }
}

/// A price has no row only where there are more steps between it and the spread than can
/// be counted.
pub proof fn law_prices_have_rows(grid: PriceGrid, price: Price)
    requires
        grid.wf(),
    ensures
        grid.row_of(price) is None ==> {
            let s = grid.tick.units as int;
            price.units - grid.best_ask.units >= u64::MAX * s || grid.best_bid.units - price.units
                >= u64::MAX * s
        },
{
    let s = grid.tick.units as int;
    crate::units::law_steps_are_counted(grid.best_ask.units as int, price.units as int, s);
    crate::units::law_steps_are_counted(price.units as int, grid.best_bid.units as int, s);
}

} // verus!
