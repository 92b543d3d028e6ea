//! Fixed-point prices and quantities.
//!
//! Both are integers that count atomic units. How many atomic units make one
//! whole price or quantity is up to the caller: nothing here depends on it.

use vstd::prelude::*;

verus! {

/// Whether `x` can be held in the integer that prices and quantities use.
pub open spec fn fits(x: int) -> bool {
    i64::MIN <= x <= i64::MAX
}

/// The greatest multiple of `s` that is not above `x`.
pub open spec fn floor_multiple(x: int, s: int) -> int {
    x - x % s
}

/// The least multiple of `s` that is not below `x`.
pub open spec fn ceil_multiple(x: int, s: int) -> int {
    if x % s == 0 {
        x
    } else {
        x - x % s + s
    }
}

/// The multiple of `s` nearest to `x`; of two that are equally near, the higher.
pub open spec fn nearest_multiple(x: int, s: int) -> int {
    if 2 * (x % s) < s {
        x - x % s
    } else {
        x - x % s + s
    }
}

/// The multiple of `s` at or below `x` for sells and bids, at or above it otherwise.
pub open spec fn side_multiple(is_sell_or_bid: bool, x: int, s: int) -> int {
    if is_sell_or_bid {
        floor_multiple(x, s)
    } else {
        ceil_multiple(x, s)
    }
}

/// How many of `low`, `low + s`, `low + 2 * s`, ... are not above `high`.
pub open spec fn steps_between(low: int, high: int, s: int) -> Option<u64> {
    if low <= high && (high - low) / s + 1 <= u64::MAX {
        Some(((high - low) / s + 1) as u64)
    } else {
        None
    }
}

pub open spec fn larger(a: int, b: int) -> int {
    if b > a {
        b
    } else {
        a
    }
}

pub open spec fn smaller(a: int, b: int) -> int {
    if b < a {
        b
    } else {
        a
    }
}

pub open spec fn distance(a: int, b: int) -> int {
    if a >= b {
        a - b
    } else {
        b - a
    }
}

/// A price, in atomic units.
#[derive(Clone, Copy, Debug, PartialEq, Eq, PartialOrd, Ord, Hash, Structural)]
pub struct Price {
    pub units: i64,
}

/// The distance between two neighbouring price bins, in atomic units.
#[derive(Clone, Copy, Debug, PartialEq, Eq, PartialOrd, Ord, Hash, Structural)]
pub struct PriceStep {
    pub units: i64,
}

/// A quantity, in atomic units. Differences of quantities are quantities too,
/// so the number may be negative.
#[derive(Clone, Copy, Debug, PartialEq, Eq, PartialOrd, Ord, Hash, Structural)]
pub struct Qty {
    pub units: i64,
}

proof fn lemma_product_bound(a: int, b: int)
    requires
        fits(a),
        fits(b),
    ensures
        -0x4000_0000_0000_0000_0000_0000_0000_0000 <= a * b
            <= 0x4000_0000_0000_0000_0000_0000_0000_0000,
{
    assert(-0x4000_0000_0000_0000_0000_0000_0000_0000 <= a * b
        <= 0x4000_0000_0000_0000_0000_0000_0000_0000) by (nonlinear_arith)
        requires
            -0x8000_0000_0000_0000 <= a <= 0x8000_0000_0000_0000,
            -0x8000_0000_0000_0000 <= b <= 0x8000_0000_0000_0000,
    ;
}

proof fn lemma_quotient_bound(x: int, s: int)
    requires
        0 <= x,
        0 < s,
    ensures
        0 <= x / s <= x,
{
    vstd::arithmetic::div_mod::lemma_div_pos_is_pos(x, s);
    vstd::arithmetic::div_mod::lemma_div_nonincreasing(x, s);
}

/// The remainder of `x` divided by `s` that is not negative.
fn remainder(x: i64, s: i64) -> (r: i64)
    requires
        s > 0,
    ensures
        r == x as int % s as int,
{
    proof {
        vstd::arithmetic::div_mod::lemma_mod_bound(x as int, s as int);
    }
    match x.checked_rem_euclid(s) {
        Some(r) => r,
        None => 0,
    }
}

impl PriceStep {
    /// A step separates prices only if it is positive.
    pub open spec fn wf(self) -> bool {
        self.units > 0
    }
}

impl Price {
    /// The bin at the nearest multiple of `step`. Exactly half a step goes to the
    /// higher multiple.
    pub fn round_to_step(self, step: PriceStep) -> (r: Price)
        requires
            step.wf(),
            fits(nearest_multiple(self.units as int, step.units as int)),
        ensures
            r.units == nearest_multiple(self.units as int, step.units as int),
    {
        let rest = remainder(self.units, step.units);
        proof {
            vstd::arithmetic::div_mod::lemma_mod_bound(self.units as int, step.units as int);
        }
        if rest < step.units - rest {
            Price { units: (self.units as i128 - rest as i128) as i64 }
        } else {
            Price { units: (self.units as i128 - rest as i128 + step.units as i128) as i64 }
        }
    }

    /// Whether [`Price::round_to_step`] can hold the bin.
    pub fn can_round_to_step(self, step: PriceStep) -> (r: bool)
        requires
            step.wf(),
        ensures
            r == fits(nearest_multiple(self.units as int, step.units as int)),
    {
        let rest = remainder(self.units, step.units);
        proof {
            vstd::arithmetic::div_mod::lemma_mod_bound(self.units as int, step.units as int);
        }
        if rest < step.units - rest {
            self.units as i128 - rest as i128 >= i64::MIN as i128
        } else {
            self.units as i128 - rest as i128 + step.units as i128 <= i64::MAX as i128
        }
    }

    /// The bin on the given side of this price: the multiple of `step` at or
    /// below it for sells and bids, at or above it for buys and asks.
    pub fn round_to_side_step(self, is_sell_or_bid: bool, step: PriceStep) -> (r: Price)
        requires
            step.wf(),
            fits(side_multiple(is_sell_or_bid, self.units as int, step.units as int)),
        ensures
            r.units == side_multiple(is_sell_or_bid, self.units as int, step.units as int),
    {
        let rest = remainder(self.units, step.units);
        if is_sell_or_bid || rest == 0 {
            Price { units: (self.units as i128 - rest as i128) as i64 }
        } else {
            Price { units: (self.units as i128 - rest as i128 + step.units as i128) as i64 }
        }
    }

    /// As [`Price::round_to_side_step`], but None where the bin cannot be held.
    pub fn checked_side_step(self, is_sell_or_bid: bool, step: PriceStep) -> (r: Option<Price>)
        requires
            step.wf(),
        ensures
            match r {
                Some(bin) => bin.units == side_multiple(
                    is_sell_or_bid,
                    self.units as int,
                    step.units as int,
                ),
                None => !fits(
                    side_multiple(is_sell_or_bid, self.units as int, step.units as int),
                ),
            },
    {
        let rest = remainder(self.units, step.units);
        let bin: i128 = if is_sell_or_bid || rest == 0 {
            self.units as i128 - rest as i128
        } else {
            self.units as i128 - rest as i128 + step.units as i128
        };
        if i64::MIN as i128 <= bin && bin <= i64::MAX as i128 {
            Some(Price { units: bin as i64 })
        } else {
            None
        }
    }

    /// The price that lies `steps` steps above this one; below it, if negative.
    pub fn add_steps(self, steps: i64, step: PriceStep) -> (r: Price)
        requires
            fits(self.units + steps * step.units),
        ensures
            r.units == self.units + steps * step.units,
    {
        proof {
            lemma_product_bound(steps as int, step.units as int);
        }
        Price { units: (self.units as i128 + steps as i128 * step.units as i128) as i64 }
    }

    /// How many multiples of `step` lie from `low` up to `high`, counted from
    /// `low` and with it. None if `high` is below `low`, or if there are more of
    /// them than the number can hold.
    pub fn steps_between_inclusive(low: Price, high: Price, step: PriceStep) -> (r: Option<u64>)
        requires
            step.wf(),
        ensures
            r == steps_between(low.units as int, high.units as int, step.units as int),
    {
        if high.units < low.units {
            return None;
        }
        let span: i128 = high.units as i128 - low.units as i128;
        let step: i128 = step.units as i128;
        proof {
            lemma_quotient_bound(span as int, step as int);
        }
        let count: i128 = span / step + 1;
        if count <= u64::MAX as i128 {
            Some(count as u64)
        } else {
            None
        }
    }
}

impl Qty {
    /// The sum of two quantities.
    pub fn plus(self, other: Qty) -> (r: Qty)
        requires
            fits(self.units + other.units),
        ensures
            r.units == self.units + other.units,
    {
        Qty { units: self.units + other.units }
    }

    /// What is left of this quantity when `other` is taken away.
    pub fn minus(self, other: Qty) -> (r: Qty)
        requires
            fits(self.units - other.units),
        ensures
            r.units == self.units - other.units,
    {
        Qty { units: self.units - other.units }
    }

    /// The larger of two quantities.
    pub fn max(self, other: Qty) -> (r: Qty)
        ensures
            r.units == larger(self.units as int, other.units as int),
    {
        if other.units > self.units {
            other
        } else {
            self
        }
    }

    /// Whether [`Qty::abs_diff`] can hold the distance.
    pub fn can_abs_diff(self, other: Qty) -> (r: bool)
        ensures
            r == fits(distance(self.units as int, other.units as int)),
    {
        if self.units >= other.units {
            self.units as i128 - other.units as i128 <= i64::MAX as i128
        } else {
            other.units as i128 - self.units as i128 <= i64::MAX as i128
        }
    }

    /// The distance between two quantities, whichever is larger.
    pub fn abs_diff(self, other: Qty) -> (r: Qty)
        requires
            fits(distance(self.units as int, other.units as int)),
        ensures
            r.units == distance(self.units as int, other.units as int),
    {
        if self.units >= other.units {
            Qty { units: self.units - other.units }
        } else {
            Qty { units: other.units - self.units }
        }
    }
}

impl Default for Qty {
    fn default() -> (r: Qty)
        ensures
            r.units == 0,
    {
        Qty { units: 0 }
    }
}

/// Nearest-bin rounding lands on a multiple of the step at most half a step
/// away, above the price if it is exactly half a step away, and leaves a price
/// that is such a multiple where it is.
pub proof fn law_nearest_bin(x: int, s: int)
    requires
        s > 0,
    ensures
        nearest_multiple(x, s) % s == 0,
        2 * distance(nearest_multiple(x, s), x) <= s,
        2 * distance(nearest_multiple(x, s), x) == s ==> nearest_multiple(x, s) > x,
        x % s == 0 ==> nearest_multiple(x, s) == x,
        nearest_multiple(nearest_multiple(x, s), s) == nearest_multiple(x, s),
{
    lemma_neighbours(x, s);
}

/// Side rounding brackets the price: the bin for sells and bids is at or below
/// it, the bin for buys and asks at or above it, both are multiples of the step,
/// and they are one step apart unless the price is itself a multiple.
pub proof fn law_side_bins(x: int, s: int)
    requires
        s > 0,
    ensures
        side_multiple(true, x, s) <= x <= side_multiple(false, x, s),
        side_multiple(true, x, s) % s == 0,
        side_multiple(false, x, s) % s == 0,
        x % s == 0 ==> side_multiple(true, x, s) == x == side_multiple(false, x, s),
        x % s != 0 ==> side_multiple(false, x, s) - side_multiple(true, x, s) == s,
        forall|b: bool|
            side_multiple(b, side_multiple(b, x, s), s) == #[trigger] side_multiple(b, x, s),
{
    lemma_neighbours(x, s);
}

/// Adding steps and counting them agree: a price `n` steps up is the last of
/// `n + 1` multiples.
pub proof fn law_steps_round_trip(low: int, n: int, s: int)
    requires
        s > 0,
        0 <= n < u64::MAX,
    ensures
        steps_between(low, low + n * s, s) == Some((n + 1) as u64),
{
    assert(n * s >= 0) by (nonlinear_arith)
        requires
            n >= 0,
            s > 0,
    ;
    assert((n * s) / s == n) by {
        vstd::arithmetic::div_mod::lemma_div_by_multiple(n, s);
    }
}

proof fn lemma_neighbours(x: int, s: int)
    requires
        s > 0,
    ensures
        0 <= x % s < s,
        (x - x % s) % s == 0,
        (x - x % s + s) % s == 0,
{
    vstd::arithmetic::div_mod::lemma_mod_bound(x, s);
    vstd::arithmetic::div_mod::lemma_fundamental_div_mod(x, s);
    assert(x - x % s == (x / s) * s) by (nonlinear_arith)
        requires
            x == s * (x / s) + x % s,
    ;
    assert(x - x % s + s == (x / s + 1) * s) by (nonlinear_arith)
        requires
            x - x % s == (x / s) * s,
    ;
    vstd::arithmetic::div_mod::lemma_mod_multiples_basic(x / s, s);
    vstd::arithmetic::div_mod::lemma_mod_multiples_basic(x / s + 1, s);
}

/// Rounding to the nearest multiple, in plain terms.
pub proof fn law_nearest_in_plain_terms(x: int, s: int)
    requires
        s > 0,
    ensures
        nearest_multiple(x, s) % s == 0,
        -s <= 2 * (x - nearest_multiple(x, s)) < s,
{
    lemma_neighbours(x, s);
}

/// Rounding to a side, in plain terms: the multiple for sells and bids is the last one
/// that is not above the price, the one for buys and asks the first that is not below.
pub proof fn law_side_in_plain_terms(x: int, s: int)
    requires
        s > 0,
    ensures
        side_multiple(true, x, s) % s == 0,
        side_multiple(true, x, s) <= x < side_multiple(true, x, s) + s,
        side_multiple(false, x, s) % s == 0,
        side_multiple(false, x, s) - s < x <= side_multiple(false, x, s),
{
    lemma_neighbours(x, s);
}

/// Counting steps: the last multiple that is counted is not above the high price, and the
/// next one would be. There is a count unless the prices are the wrong way round or there
/// are too many steps.
pub proof fn law_steps_are_counted(low: int, high: int, s: int)
    requires
        s > 0,
    ensures
        match steps_between(low, high, s) {
            Some(n) => n >= 1 && low + (n - 1) * s <= high < low + n * s,
            None => high < low || high - low >= u64::MAX * s,
        },
{
    if low <= high {
        let d = high - low;
        let q = d / s;
        vstd::arithmetic::div_mod::lemma_fundamental_div_mod(d, s);
        vstd::arithmetic::div_mod::lemma_mod_bound(d, s);
        vstd::arithmetic::div_mod::lemma_div_pos_is_pos(d, s);
        vstd::arithmetic::mul::lemma_mul_is_commutative(s, q);
        vstd::arithmetic::mul::lemma_mul_is_distributive_add_other_way(s, q, 1);
        if q + 1 > u64::MAX {
            assert(q * s >= u64::MAX * s) by (nonlinear_arith)
                requires
                    q >= u64::MAX,
                    s > 0,
            ;
        }
    }
}

/// Larger, smaller and distance of two numbers; and which numbers fit.
pub proof fn law_comparisons(a: int, b: int)
    ensures
        larger(a, b) >= a && larger(a, b) >= b && (larger(a, b) == a || larger(a, b) == b),
        smaller(a, b) <= a && smaller(a, b) <= b && (smaller(a, b) == a || smaller(a, b) == b),
        distance(a, b) >= 0 && (distance(a, b) == a - b || distance(a, b) == b - a),
        fits(a) <==> -0x8000_0000_0000_0000 <= a < 0x8000_0000_0000_0000,
{
}

} // verus!
