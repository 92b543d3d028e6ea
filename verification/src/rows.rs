//! What the ladder shows: where it is centred, and what stands on its rows.

use crate::book::{best, is_regrouped, lemma_best_exists, level_bin, order_qty, Depth, Side};
use crate::footprint::GroupedTrades;
use crate::grid::{law_row_brackets, PriceGrid};
use crate::ladder::{Ladder, LadderConfig};
use crate::trades::{law_bins_on_grid, lemma_price_range_exists, price_range_of, qty_at};
use crate::units::{distance, fits, larger, law_side_bins, smaller, steps_between, Price, PriceStep, Qty};
use vstd::prelude::*;

verus! {

/// Half of a number of steps. The number is taken as a signed one, so that the half
/// of a number from 2^63 on is negative.
pub open spec fn half_steps(steps: u64) -> int {
    if steps <= i64::MAX {
        steps as int / 2
    } else {
        -((0x1_0000_0000_0000_0000 - steps) / 2)
    }
}

/// How many steps the highest of the traded prices is above the centre.
pub open spec fn steps_to_centre(low: Price, high: Price, step: PriceStep) -> int {
    match steps_between(low.units as int, high.units as int, step.units as int) {
        Some(steps) => half_steps(steps),
        None => 0,
    }
}

fn half_of(steps: u64) -> (r: i64)
    ensures
        r == half_steps(steps),
{
    if steps <= i64::MAX as u64 {
        (steps / 2) as i64
    } else {
        -((0x1_0000_0000_0000_0000i128 - steps as i128) / 2) as i64
    }
}

impl Ladder {
    /// The price just below the centre: the best bid, or the price below the best ask
    /// where there are no bids, or the middle of the traded prices where there are no
    /// orders. None if there is nothing at all.
    pub open spec fn centre(self) -> Option<int> {
        match (best(self.bids.orders@, Side::Bid), best(self.asks.orders@, Side::Ask)) {
            (Some(bid), _) => Some(bid.units as int),
            (None, Some(ask)) => Some(ask.units - self.step.units),
            (None, None) => match price_range_of(self.trades.grouped.trades@) {
                Some((low, high)) => Some(
                    high.units - steps_to_centre(low, high, self.step) * self.step.units,
                ),
                None => None,
            },
        }
    }

    /// Whether the prices on either side of the centre can be held.
    pub open spec fn grid_fits(self) -> bool {
        self.centre() matches Some(c) ==> fits(c) && fits(c + self.step.units)
    }

    /// Whether `grid` is the grid around the centre.
    pub open spec fn is_grid(self, grid: Option<PriceGrid>) -> bool {
        match (grid, self.centre()) {
            (Some(grid), Some(c)) => {
                &&& grid.best_bid.units == c
                &&& grid.best_ask.units == c + self.step.units
                &&& grid.tick == self.step
            },
            (None, None) => true,
            _ => false,
        }
    }

    /// Whether [`Ladder::build_price_grid`] can hold all prices.
    pub fn can_build_price_grid(&self) -> (r: bool)
        requires
            self.step.wf(),
        ensures
            r == self.grid_fits(),
    {
        let step: i128 = self.step.units as i128;
        let centre: i128 = match (self.best_price(Side::Bid), self.best_price(Side::Ask)) {
            (Some(bid), _) => bid.units as i128,
            (None, Some(ask)) => ask.units as i128 - step,
            (None, None) => match self.trades.price_range() {
                Some((low, high)) => {
                    let steps: u64 = match Price::steps_between_inclusive(low, high, self.step) {
                        Some(steps) => steps,
                        None => 1,
                    };
                    let half = half_of(steps);
                    assert(-0x2000_0000_0000_0000_0000_0000_0000_0000 <= half * self.step.units
                        <= 0x2000_0000_0000_0000_0000_0000_0000_0000) by (nonlinear_arith)
                        requires
                            -0x4000_0000_0000_0000 <= half <= 0x4000_0000_0000_0000,
                            0 <= self.step.units <= 0x8000_0000_0000_0000,
                    ;
                    high.units as i128 - half as i128 * step
                },
                None => {
                    return true;
                },
            },
        };
        i64::MIN as i128 <= centre && centre + step <= i64::MAX as i128
    }

    /// The grid of prices around the centre. None if there are neither orders nor
    /// trades.
    pub fn build_price_grid(&self) -> (r: Option<PriceGrid>)
        requires
            self.step.wf(),
            self.grid_fits(),
        ensures
            self.is_grid(r),
            r matches Some(grid) ==> grid.wf(),
    {
        let best_bid = match (self.best_price(Side::Bid), self.best_price(Side::Ask)) {
            (Some(bid), _) => bid,
            (None, Some(ask)) => {
                assert(ask.units + (-1) * self.step.units == ask.units - self.step.units);
                ask.add_steps(-1, self.step)
            },
            (None, None) => match self.trades.price_range() {
                Some((low, high)) => {
                    let steps: u64 = match Price::steps_between_inclusive(low, high, self.step) {
                        Some(steps) => steps,
                        None => 1,
                    };
                    let half = half_of(steps);
                    assert(high.units + (-half) * self.step.units == high.units - half
                        * self.step.units) by (nonlinear_arith);
                    high.add_steps(-half, self.step)
                },
                None => {
                    return None;
                },
            },
        };
        assert(1 * self.step.units == self.step.units);
        let best_ask = best_bid.add_steps(1, self.step);
        Some(PriceGrid { best_bid, best_ask, tick: self.step })
    }
}

/// What stands on one row.
#[derive(Clone, Copy, Debug, PartialEq, Eq, Structural)]
pub enum DomRow {
    Ask { price: Price, qty: Qty },
    Spread,
    CenterDivider,
    Bid { price: Price, qty: Qty },
}

/// A row on the screen, with what was traded at its price.
#[derive(Clone, Copy, Debug, PartialEq, Eq, Structural)]
pub struct VisibleRow {
    pub row: DomRow,
    pub idx: i32,
    pub buy_t: Qty,
    pub sell_t: Qty,
}

/// The largest quantities on the screen, and not less than zero: the bars are drawn
/// in proportion to them.
#[derive(Clone, Copy, Debug, PartialEq, Eq, Structural)]
pub struct Maxima {
    pub vis_max_order_qty: Qty,
    pub vis_max_trade_qty: Qty,
}

/// The sum of `f` over the rows from the one next to the spread up to row `idx`.
pub open spec fn cumulated(f: spec_fn(int) -> int, idx: int) -> int
    decreases
            (if idx < 0 {
                -idx
            } else {
                idx
            }),
{
    if idx > 0 {
        cumulated(f, idx - 1) + f(idx)
    } else if idx < 0 {
        cumulated(f, idx + 1) + f(idx)
    } else {
        0
    }
}

/// The sum of `f` over the rows from `low` to `high`.
pub open spec fn range_sum(f: spec_fn(int) -> int, low: int, high: int) -> int
    decreases high - low + 1,
{
    if low > high {
        0
    } else {
        range_sum(f, low, high - 1) + f(high)
    }
}

/// The sum of `f` over the rows from the edge of the screen to row `idx`: from row
/// `first` down for an ask row, from row `last` up for a bid row.
pub open spec fn summed_from_edge(
    f: spec_fn(int) -> int,
    first: int,
    last: int,
    idx: int,
) -> int {
    if idx < 0 {
        range_sum(f, first, idx)
    } else if idx > 0 {
        range_sum(f, idx, last)
    } else {
        0
    }
}

/// The order quantity that a row shows: its own, or that of all rows from the spread to
/// it.
pub open spec fn shown(f: spec_fn(int) -> int, cumulative: bool, idx: int) -> int {
    if cumulative {
        cumulated(f, idx)
    } else {
        f(idx)
    }
}

/// The traded quantity that a row shows: its own, or that of all rows from the edge of
/// the screen to it.
pub open spec fn shown_trades(
    f: spec_fn(int) -> int,
    cumulative: bool,
    first: int,
    last: int,
    idx: int,
) -> int {
    if cumulative {
        summed_from_edge(f, first, last, idx)
    } else {
        f(idx)
    }
}

/// The order quantity that a row is measured by.
pub open spec fn row_order_units(row: DomRow) -> int {
    match row {
        DomRow::Ask { qty, .. } => qty.units as int,
        DomRow::Bid { qty, .. } => qty.units as int,
        _ => 0,
    }
}

/// The traded quantity that a row is measured by: the larger of the two sides.
pub open spec fn row_trade_units(row: VisibleRow) -> int {
    larger(row.buy_t.units as int, row.sell_t.units as int)
}

pub open spec fn max_order_units(rows: Seq<VisibleRow>) -> int
    decreases rows.len(),
{
    if rows.len() == 0 {
        0
    } else {
        larger(max_order_units(rows.drop_last()), row_order_units(rows.last().row))
    }
}

pub open spec fn max_trade_units(rows: Seq<VisibleRow>) -> int
    decreases rows.len(),
{
    if rows.len() == 0 {
        0
    } else {
        larger(max_trade_units(rows.drop_last()), row_trade_units(rows.last()))
    }
}

/// The largest quantities on the given rows.
pub fn maxima_of(rows: &Vec<VisibleRow>) -> (r: Maxima)
    ensures
        r.vis_max_order_qty.units == max_order_units(rows@),
        r.vis_max_trade_qty.units == max_trade_units(rows@),
{
    let mut order = Qty::default();
    let mut trade = Qty::default();
    let mut i: usize = 0;
    while i < rows.len()
        invariant
            i <= rows.len(),
            order.units == max_order_units(rows@.take(i as int)),
            trade.units == max_trade_units(rows@.take(i as int)),
        decreases rows.len() - i,
    {
        assert(rows@.take(i + 1).drop_last() =~= rows@.take(i as int));
        let row = rows[i];
        let qty = match row.row {
            DomRow::Ask { qty, .. } => qty,
            DomRow::Bid { qty, .. } => qty,
            _ => Qty::default(),
        };
        order = order.max(qty);
        trade = trade.max(row.buy_t.max(row.sell_t));
        i = i + 1;
    }
    assert(rows@.take(i as int) =~= rows@);
    Maxima { vis_max_order_qty: order, vis_max_trade_qty: trade }
}

fn in_range(x: i128) -> (r: bool)
    ensures
        r == fits(x as int),
{
    i64::MIN as i128 <= x && x <= i64::MAX as i128
}

/// Whether `sum` can be the sum of `n` quantities.
spec fn within(sum: int, n: int) -> bool {
    -0x8000_0000_0000_0000 * n <= sum <= 0x8000_0000_0000_0000 * n
}

/// A sum over a range of rows also grows at its lower end.
proof fn lemma_range_sum_low(f: spec_fn(int) -> int, low: int, high: int)
    requires
        low <= high,
    ensures
        range_sum(f, low, high) == f(low) + range_sum(f, low + 1, high),
    decreases high - low,
{
    if low < high {
        lemma_range_sum_low(f, low, high - 1);
    } else {
        assert(range_sum(f, low, high - 1) == 0);
    }
}

impl Ladder {
    /// The order quantity of each row.
    pub open spec fn row_orders(self, grid: PriceGrid) -> spec_fn(int) -> int {
        |idx: int|
            if idx > 0 {
                order_qty(self.bids.orders@, grid.row_price(idx) as i64).units as int
            } else {
                order_qty(self.asks.orders@, grid.row_price(idx) as i64).units as int
            }
    }

    /// The bought quantity of each row.
    pub open spec fn row_buys(self, grid: PriceGrid) -> spec_fn(int) -> int {
        |idx: int|
            qty_at(self.trades.grouped.trades@, grid.row_price(idx) as i64).0.units as int
    }

    /// The sold quantity of each row.
    pub open spec fn row_sells(self, grid: PriceGrid) -> spec_fn(int) -> int {
        |idx: int|
            qty_at(self.trades.grouped.trades@, grid.row_price(idx) as i64).1.units as int
    }

    /// What stands on the row between asks and bids.
    pub open spec fn middle_row(self) -> DomRow {
        if self.config.show_spread && self.ticker_info.depth_client_aggr {
            DomRow::Spread
        } else {
            DomRow::CenterDivider
        }
    }

    /// What stands on row `idx` of a screen with the rows from `first` to `last`. Where
    /// that is asked for, trades are summed from the edges of the screen toward the
    /// spread, and orders from the spread outward.
    pub open spec fn row_at(
        self,
        grid: PriceGrid,
        sum_trades: bool,
        sum_orders: bool,
        first: int,
        last: int,
        idx: int,
    ) -> VisibleRow {
        let price = Price { units: grid.row_price(idx) as i64 };
        let qty = Qty { units: shown(self.row_orders(grid), sum_orders, idx) as i64 };
        let buy = shown_trades(self.row_buys(grid), sum_trades, first, last, idx);
        let sell = shown_trades(self.row_sells(grid), sum_trades, first, last, idx);
        if idx == 0 {
            VisibleRow {
                row: self.middle_row(),
                idx: 0,
                buy_t: Qty { units: 0 },
                sell_t: Qty { units: 0 },
            }
        } else {
            VisibleRow {
                row: if idx > 0 {
                    DomRow::Bid { price, qty }
                } else {
                    DomRow::Ask { price, qty }
                },
                idx: idx as i32,
                buy_t: Qty { units: buy as i64 },
                sell_t: Qty { units: sell as i64 },
            }
        }
    }

    /// The rows from `first` to `last`.
    pub open spec fn rows_at(
        self,
        grid: PriceGrid,
        sum_trades: bool,
        sum_orders: bool,
        first: int,
        last: int,
    ) -> Seq<VisibleRow> {
        Seq::new(
            (if first <= last {
                last - first + 1
            } else {
                0
            }) as nat,
            |j: int| self.row_at(grid, sum_trades, sum_orders, first, last, first + j),
        )
    }

    /// Whether quantities are summed: that is so only where the spread itself is on the
    /// screen.
    pub open spec fn sums(first: int, last: int, wanted: bool) -> bool {
        wanted && first <= 0 <= last
    }

    /// The rows that are on a screen with the rows from `first` to `last`, as the
    /// configuration wants them.
    pub open spec fn screen(self, grid: PriceGrid, first: int, last: int) -> Seq<VisibleRow> {
        self.rows_at(
            grid,
            Self::sums(first, last, self.config.cumulative_trades),
            Self::sums(first, last, self.config.cumulative_orders),
            first,
            last,
        )
    }

    /// Whether the prices of the rows from `first` to `last` can be held.
    pub open spec fn prices_fit(grid: PriceGrid, first: int, last: int) -> bool {
        forall|idx: int| first <= idx <= last && idx != 0 ==> fits(#[trigger] grid.row_price(idx))
    }

    /// Whether the order quantities of the rows from `low` to `high`, summed from the
    /// spread, can be held.
    pub open spec fn order_sums_fit(self, grid: PriceGrid, low: int, high: int) -> bool {
        forall|idx: int|
            low <= idx <= high ==> fits(#[trigger] cumulated(self.row_orders(grid), idx))
    }

    /// Whether the traded quantities of the rows from `low` to `high`, summed from the
    /// edges of a screen with the rows from `first` to `last`, can be held.
    pub open spec fn trade_sums_fit(
        self,
        grid: PriceGrid,
        first: int,
        last: int,
        low: int,
        high: int,
    ) -> bool {
        &&& forall|idx: int|
            low <= idx <= high ==> fits(
                #[trigger] summed_from_edge(self.row_buys(grid), first, last, idx),
            )
        &&& forall|idx: int|
            low <= idx <= high ==> fits(
                #[trigger] summed_from_edge(self.row_sells(grid), first, last, idx),
            )
    }

    /// Whether everything on the rows from `first` to `last` can be held.
    pub open spec fn rows_fit(self, grid: PriceGrid, first: int, last: int) -> bool {
        &&& Self::prices_fit(grid, first, last)
        &&& Self::sums(first, last, self.config.cumulative_orders) ==> self.order_sums_fit(
            grid,
            first,
            last,
        )
        &&& Self::sums(first, last, self.config.cumulative_trades) ==> self.trade_sums_fit(
            grid,
            first,
            last,
            first,
            last,
        )
    }

    /// The rows from `first` to `last`, from the top of the screen down, and the
    /// largest quantities on them. Where the configuration asks for it and the spread
    /// row is among them, trades accumulate from the price extremes toward the spread:
    /// an ask row shows those of all rows from the top down to itself, a bid row those
    /// of all rows from the bottom up to itself. Orders accumulate from the spread
    /// outward.
    pub fn visible_rows(&self, grid: &PriceGrid, first: i32, last: i32) -> (r: (
        Vec<VisibleRow>,
        Maxima,
    ))
        requires
            self.rows_fit(*grid, first as int, last as int),
        ensures
            r.0@ == self.screen(*grid, first as int, last as int),
            r.1.vis_max_order_qty.units == max_order_units(r.0@),
            r.1.vis_max_trade_qty.units == max_trade_units(r.0@),
    {
        let mut rows = self.plain_rows(grid, first, last);
        if first <= 0 && 0 <= last {
            let split: usize = (-(first as i64)) as usize;
            if self.config.cumulative_trades {
                self.sum_trades(split, &mut rows, Ghost(*grid), Ghost(first as int), Ghost(last as int));
            }
            if self.config.cumulative_orders {
                self.sum_orders(split, &mut rows, Ghost(*grid), Ghost(first as int), Ghost(last as int));
            }
        }
        let maxima = maxima_of(&rows);
        (rows, maxima)
    }

    /// The quantities of row `idx`: orders, bought, sold.
    fn row_figures(&self, grid: &PriceGrid, idx: i32) -> (r: (Qty, Qty, Qty))
        requires
            idx != 0,
            fits(grid.row_price(idx as int)),
        ensures
            r.0.units == (self.row_orders(*grid))(idx as int),
            r.1.units == (self.row_buys(*grid))(idx as int),
            r.2.units == (self.row_sells(*grid))(idx as int),
    {
        let price = match grid.index_to_price(idx) {
            Some(price) => price,
            None => {
                return (Qty::default(), Qty::default(), Qty::default());
            },
        };
        let orders = if idx > 0 {
            self.bids.qty_at(price)
        } else {
            self.asks.qty_at(price)
        };
        let (buys, sells) = self.trade_qty_at(price);
        (orders, buys, sells)
    }

    /// Whether [`Ladder::visible_rows`] can hold all prices and sums.
    pub fn can_show_rows(&self, grid: &PriceGrid, first: i32, last: i32) -> (r: bool)
        ensures
            r == self.rows_fit(*grid, first as int, last as int),
    {
        let mut next: i64 = first as i64;
        while next <= last as i64
            invariant
                first <= next,
                forall|idx: int|
                    first <= idx < next && idx != 0 ==> fits(#[trigger] grid.row_price(idx)),
            decreases last + 1 - next,
        {
            let idx: i32 = next as i32;
            if idx != 0 && !grid.can_price(idx) {
                assert(!fits(grid.row_price(idx as int)));
                return false;
            }
            next = next + 1;
        }
        if first <= 0 && 0 <= last {
            if self.config.cumulative_orders && !(self.can_sum_orders(grid, first)
                && self.can_sum_orders(grid, last)) {
                return false;
            }
            if self.config.cumulative_trades && !(self.can_sum_asks(grid, first, Ghost(last as int))
                && self.can_sum_bids(grid, last, Ghost(first as int))) {
                return false;
            }
            assert(self.config.cumulative_trades ==> self.trade_sums_fit(
                *grid,
                first as int,
                last as int,
                0,
                0,
            ));
        }
        true
    }

    /// Whether the orders of the rows between the spread and row `end`, summed from the
    /// spread, can be held.
    fn can_sum_orders(&self, grid: &PriceGrid, end: i32) -> (r: bool)
        requires
            Self::prices_fit(
                *grid,
                smaller(0, end as int),
                larger(0, end as int),
            ),
        ensures
            r == self.order_sums_fit(*grid, smaller(0, end as int), larger(0, end as int)),
    {
        let mut sum: i128 = 0;
        let mut idx: i32 = 0;
        while idx != end
            invariant
                0 <= idx <= end || end <= idx <= 0,
                Self::prices_fit(*grid, smaller(0, end as int), larger(0, end as int)),
                sum == cumulated(self.row_orders(*grid), idx as int),
                within(sum as int, distance(0, idx as int)),
                self.order_sums_fit(*grid, smaller(0, idx as int), larger(0, idx as int)),
            decreases distance(idx as int, end as int),
        {
            if idx < end {
                idx = idx + 1;
            } else {
                idx = idx - 1;
            }
            assert(fits(grid.row_price(idx as int)));
            let (orders, _, _) = self.row_figures(grid, idx);
            sum = sum + orders.units as i128;
            if !in_range(sum) {
                assert(!fits(cumulated(self.row_orders(*grid), idx as int)));
                return false;
            }
        }
        true
    }

    /// Whether the trades of the ask rows, summed from row `first` down, can be held.
    fn can_sum_asks(&self, grid: &PriceGrid, first: i32, Ghost(last): Ghost<int>) -> (r: bool)
        requires
            first <= 0 <= last,
            Self::prices_fit(*grid, first as int, 0),
        ensures
            r == self.trade_sums_fit(*grid, first as int, last, first as int, -1),
    {
        let mut buy: i128 = 0;
        let mut sell: i128 = 0;
        let mut idx: i32 = first;
        while idx < 0
            invariant
                first <= idx <= 0,
                Self::prices_fit(*grid, first as int, 0),
                buy == range_sum(self.row_buys(*grid), first as int, idx - 1),
                sell == range_sum(self.row_sells(*grid), first as int, idx - 1),
                within(buy as int, idx - first),
                within(sell as int, idx - first),
                self.trade_sums_fit(*grid, first as int, last, first as int, idx - 1),
            decreases -idx,
        {
            assert(fits(grid.row_price(idx as int)));
            let (_, buys, sells) = self.row_figures(grid, idx);
            buy = buy + buys.units as i128;
            sell = sell + sells.units as i128;
            assert(buy == summed_from_edge(self.row_buys(*grid), first as int, last, idx as int));
            assert(sell == summed_from_edge(self.row_sells(*grid), first as int, last, idx as int));
            if !in_range(buy) || !in_range(sell) {
                return false;
            }
            idx = idx + 1;
        }
        true
    }

    /// Whether the trades of the bid rows, summed from row `last` up, can be held.
    fn can_sum_bids(&self, grid: &PriceGrid, last: i32, Ghost(first): Ghost<int>) -> (r: bool)
        requires
            first <= 0 <= last,
            Self::prices_fit(*grid, 0, last as int),
        ensures
            r == self.trade_sums_fit(*grid, first, last as int, 1, last as int),
    {
        let mut buy: i128 = 0;
        let mut sell: i128 = 0;
        let mut idx: i32 = last;
        while idx > 0
            invariant
                0 <= idx <= last,
                Self::prices_fit(*grid, 0, last as int),
                buy == range_sum(self.row_buys(*grid), idx + 1, last as int),
                sell == range_sum(self.row_sells(*grid), idx + 1, last as int),
                within(buy as int, last - idx),
                within(sell as int, last - idx),
                self.trade_sums_fit(*grid, first, last as int, idx + 1, last as int),
            decreases idx,
        {
            assert(fits(grid.row_price(idx as int)));
            let (_, buys, sells) = self.row_figures(grid, idx);
            proof {
                lemma_range_sum_low(self.row_buys(*grid), idx as int, last as int);
                lemma_range_sum_low(self.row_sells(*grid), idx as int, last as int);
            }
            buy = buy + buys.units as i128;
            sell = sell + sells.units as i128;
            assert(buy == summed_from_edge(self.row_buys(*grid), first, last as int, idx as int));
            assert(sell == summed_from_edge(self.row_sells(*grid), first, last as int, idx as int));
            if !in_range(buy) || !in_range(sell) {
                return false;
            }
            idx = idx - 1;
        }
        true
    }

    /// The rows from `first` to `last`, each with its own quantities.
    fn plain_rows(&self, grid: &PriceGrid, first: i32, last: i32) -> (rows: Vec<VisibleRow>)
        requires
            self.rows_fit(*grid, first as int, last as int),
        ensures
            rows@ == self.rows_at(*grid, false, false, first as int, last as int),
    {
        let mut rows: Vec<VisibleRow> = Vec::new();
        let mut next: i64 = first as i64;
        while next <= last as i64
            invariant
                first <= next,
                next <= last + 1 || next == first,
                self.rows_fit(*grid, first as int, last as int),
                rows@ == self.rows_at(*grid, false, false, first as int, next - 1),
            decreases last + 1 - next,
        {
            let idx: i32 = next as i32;
            assert(idx != 0 ==> fits(grid.row_price(idx as int)));
            let row = match grid.index_to_price(idx) {
                Some(price) => {
                    let (buy_t, sell_t) = self.trade_qty_at(price);
                    let row = if idx > 0 {
                        DomRow::Bid { price, qty: self.bids.qty_at(price) }
                    } else {
                        DomRow::Ask { price, qty: self.asks.qty_at(price) }
                    };
                    VisibleRow { row, idx, buy_t, sell_t }
                },
                None => {
                    let row = if self.config.show_spread && self.ticker_info.depth_client_aggr {
                        DomRow::Spread
                    } else {
                        DomRow::CenterDivider
                    };
                    VisibleRow { row, idx, buy_t: Qty::default(), sell_t: Qty::default() }
                },
            };
            assert(row == self.row_at(*grid, false, false, first as int, next as int, idx as int));
            rows.push(row);
            next = next + 1;
            assert(rows@ =~= self.rows_at(*grid, false, false, first as int, next - 1));
        }
        assert(rows@ =~= self.rows_at(*grid, false, false, first as int, last as int));
        rows
    }

    /// Makes each row show what was traded on all rows from the edge of the screen to
    /// itself. The spread row is at index `split`.
    fn sum_trades(
        &self,
        split: usize,
        rows: &mut Vec<VisibleRow>,
        Ghost(grid): Ghost<PriceGrid>,
        Ghost(first): Ghost<int>,
        Ghost(last): Ghost<int>,
    )
        requires
            first <= 0 <= last,
            split == -first,
            self.trade_sums_fit(grid, first, last, first, last),
            old(rows)@ == self.rows_at(grid, false, false, first, last),
        ensures
            final(rows)@ == self.rows_at(grid, true, false, first, last),
    {
        let ghost old_rows = self.rows_at(grid, false, false, first, last);
        let ghost new_rows = self.rows_at(grid, true, false, first, last);
        let mut buy = Qty::default();
        let mut sell = Qty::default();
        let mut i: usize = 0;
        while i < split
            invariant
                i <= split == -first,
                first <= 0 <= last,
                self.trade_sums_fit(grid, first, last, first, last),
                old_rows == self.rows_at(grid, false, false, first, last),
                new_rows == self.rows_at(grid, true, false, first, last),
                rows@.len() == old_rows.len(),
                forall|j: int| i <= j < rows@.len() ==> rows@[j] == old_rows[j],
                forall|j: int| 0 <= j < i ==> rows@[j] == new_rows[j],
                buy.units == range_sum(self.row_buys(grid), first, first + i - 1),
                sell.units == range_sum(self.row_sells(grid), first, first + i - 1),
            decreases split - i,
        {
            let row = rows[i];
            assert(old_rows[i as int] == self.row_at(grid, false, false, first, last, first + i));
            assert(fits(summed_from_edge(self.row_buys(grid), first, last, first + i)));
            assert(fits(summed_from_edge(self.row_sells(grid), first, last, first + i)));
            buy = buy.plus(row.buy_t);
            sell = sell.plus(row.sell_t);
            rows.set(i, VisibleRow { buy_t: buy, sell_t: sell, ..row });
            assert(rows@[i as int] == new_rows[i as int]);
            i = i + 1;
        }
        buy = Qty::default();
        sell = Qty::default();
        i = rows.len();
        while i > split + 1
            invariant
                split < i <= rows.len(),
                split == -first,
                first <= 0 <= last,
                self.trade_sums_fit(grid, first, last, first, last),
                old_rows == self.rows_at(grid, false, false, first, last),
                new_rows == self.rows_at(grid, true, false, first, last),
                rows@.len() == old_rows.len(),
                forall|j: int| split <= j < i ==> rows@[j] == old_rows[j],
                forall|j: int|
                    0 <= j < split || i <= j < rows@.len() ==> rows@[j] == new_rows[j],
                buy.units == range_sum(self.row_buys(grid), first + i, last),
                sell.units == range_sum(self.row_sells(grid), first + i, last),
            decreases i,
        {
            i = i - 1;
            let row = rows[i];
            assert(old_rows[i as int] == self.row_at(grid, false, false, first, last, first + i));
            proof {
                lemma_range_sum_low(self.row_buys(grid), first + i, last);
                lemma_range_sum_low(self.row_sells(grid), first + i, last);
            }
            assert(fits(summed_from_edge(self.row_buys(grid), first, last, first + i)));
            assert(fits(summed_from_edge(self.row_sells(grid), first, last, first + i)));
            buy = buy.plus(row.buy_t);
            sell = sell.plus(row.sell_t);
            rows.set(i, VisibleRow { buy_t: buy, sell_t: sell, ..row });
            assert(rows@[i as int] == new_rows[i as int]);
        }
        assert(old_rows[split as int] == new_rows[split as int]);
        assert(rows@ =~= new_rows);
    }

    /// Makes each row show the orders on all rows from the spread, at index `split`, up
    /// to itself.
    fn sum_orders(
        &self,
        split: usize,
        rows: &mut Vec<VisibleRow>,
        Ghost(grid): Ghost<PriceGrid>,
        Ghost(first): Ghost<int>,
        Ghost(last): Ghost<int>,
    )
        requires
            first <= 0 <= last,
            split == -first,
            self.order_sums_fit(grid, first, last),
            old(rows)@ == self.rows_at(grid, self.config.cumulative_trades, false, first, last),
        ensures
            final(rows)@ == self.rows_at(grid, self.config.cumulative_trades, true, first, last),
    {
        let ghost summed = self.config.cumulative_trades;
        let ghost old_rows = self.rows_at(grid, summed, false, first, last);
        let ghost new_rows = self.rows_at(grid, summed, true, first, last);
        let mut sum = Qty::default();
        let mut i: usize = split;
        while i > 0
            invariant
                i <= split == -first,
                first <= 0 <= last,
                self.order_sums_fit(grid, first, last),
                old_rows == self.rows_at(grid, summed, false, first, last),
                new_rows == self.rows_at(grid, summed, true, first, last),
                rows@.len() == old_rows.len(),
                forall|j: int| 0 <= j < i || split <= j < rows@.len() ==> rows@[j] == old_rows[j],
                forall|j: int| i <= j < split ==> rows@[j] == new_rows[j],
                sum.units == cumulated(self.row_orders(grid), first + i),
            decreases i,
        {
            i = i - 1;
            assert(fits(cumulated(self.row_orders(grid), first + i)));
            let row = rows[i];
            assert(old_rows[i as int] == self.row_at(grid, summed, false, first, last, first + i));
            if let DomRow::Ask { price, qty } = row.row {
                sum = sum.plus(qty);
                rows.set(i, VisibleRow { row: DomRow::Ask { price, qty: sum }, ..row });
            }
            assert(rows@[i as int] == new_rows[i as int]);
        }
        sum = Qty::default();
        assert(split < rows.len());
        assert(old_rows[split as int] == new_rows[split as int]);
        i = split + 1;
        while i < rows.len()
            invariant
                split < i <= rows.len(),
                split == -first,
                first <= 0 <= last,
                self.order_sums_fit(grid, first, last),
                old_rows == self.rows_at(grid, summed, false, first, last),
                new_rows == self.rows_at(grid, summed, true, first, last),
                rows@.len() == old_rows.len(),
                forall|j: int| i <= j < rows@.len() ==> rows@[j] == old_rows[j],
                forall|j: int| 0 <= j < i ==> rows@[j] == new_rows[j],
                sum.units == cumulated(self.row_orders(grid), first + i - 1),
            decreases rows.len() - i,
        {
            assert(fits(cumulated(self.row_orders(grid), first + i)));
            let row = rows[i];
            assert(old_rows[i as int] == self.row_at(grid, summed, false, first, last, first + i));
            if let DomRow::Bid { price, qty } = row.row {
                sum = sum.plus(qty);
                rows.set(i, VisibleRow { row: DomRow::Bid { price, qty: sum }, ..row });
            }
            assert(rows@[i as int] == new_rows[i as int]);
            i = i + 1;
        }
        assert(rows@ =~= new_rows);
    }
}

/// Where there are only trades, the ladder is centred between the lowest and the
/// highest of their bins, unless the number of steps between these is too large for a
/// signed one.
pub proof fn law_centre_in_range(low: Price, high: Price, step: PriceStep)
    requires
        step.wf(),
        low.units <= high.units,
        steps_between(low.units as int, high.units as int, step.units as int) matches Some(n) && n
            <= i64::MAX,
    ensures
        low.units <= high.units - steps_to_centre(low, high, step) * step.units <= high.units,
{
    let d = high.units - low.units;
    let s = step.units as int;
    vstd::arithmetic::div_mod::lemma_div_pos_is_pos(d, s);
    vstd::arithmetic::div_mod::lemma_fundamental_div_mod(d, s);
    vstd::arithmetic::div_mod::lemma_mod_bound(d, s);
    let n = steps_to_centre(low, high, step);
    assert(0 <= n <= d / s);
    assert(0 <= n * s <= s * (d / s)) by (nonlinear_arith)
        requires
            0 <= n <= d / s,
            s > 0,
    ;
}

/// Whole steps lead from multiples to multiples.
pub proof fn lemma_shift_on_grid(x: int, n: int, s: int)
    requires
        s > 0,
        x % s == 0,
    ensures
        (x + n * s) % s == 0,
        (x - n * s) % s == 0,
{
    vstd::arithmetic::div_mod::lemma_mod_multiples_vanish(n, x, s);
    vstd::arithmetic::div_mod::lemma_mod_multiples_vanish(-n, x, s);
    assert(s * n + x == x + n * s) by (nonlinear_arith);
    assert(s * (-n) + x == x - n * s) by (nonlinear_arith);
}

/// The rows lie on multiples of the step, as the bins do.
pub proof fn law_rows_on_step(ladder: Ladder, grid: PriceGrid, idx: int)
    requires
        ladder.wf(),
        ladder.is_grid(Some(grid)),
    ensures
        grid.wf(),
        grid.row_price(idx) % ladder.step.units as int == 0,
{
    let s = ladder.step.units as int;
    let bids = ladder.bids.orders@;
    let asks = ladder.asks.orders@;
    let trades = ladder.trades.grouped.trades@;
    lemma_best_exists(bids, Side::Bid);
    lemma_best_exists(asks, Side::Ask);
    lemma_price_range_exists(trades);
    let c = grid.best_bid.units as int;
    match (best(bids, Side::Bid), best(asks, Side::Ask)) {
        (Some(bid), _) => {
            assert(bids.contains_key(bid.units));
        },
        (None, Some(ask)) => {
            assert(asks.contains_key(ask.units));
            lemma_shift_on_grid(ask.units as int, 1, s);
        },
        (None, None) => {
            let (low, high) = price_range_of(trades)->0;
            assert(trades.contains_key(high.units));
            law_bins_on_grid(ladder.trades.raw@, ladder.step, high.units);
            lemma_shift_on_grid(
                high.units as int,
                steps_to_centre(low, high, ladder.step),
                s,
            );
        },
    }
    assert(c % s == 0);
    lemma_shift_on_grid(c, 1, s);
    lemma_shift_on_grid(c, idx - 1, s);
    lemma_shift_on_grid(c + s, -1 - idx, s);
}

/// Every bin stands exactly on a row: the price on the row of a bin is the bin, for
/// orders and trades alike, as far as the numbers of the rows reach. No bin stands on
/// the spread row.
pub proof fn law_bins_have_rows(ladder: Ladder, grid: PriceGrid, bin: i64)
    requires
        ladder.wf(),
        ladder.is_grid(Some(grid)),
        ladder.bids.orders@.contains_key(bin) || ladder.asks.orders@.contains_key(bin)
            || ladder.trades.grouped.trades@.contains_key(bin),
        grid.rows_away(Price { units: bin }) matches Some(n) && n <= i32::MAX,
    ensures
        grid.row_of(Price { units: bin }) matches Some(idx) && idx != 0 && grid.row_price(
            idx as int,
        ) == bin,
{
    let s = ladder.step.units as int;
    let price = Price { units: bin };
    law_rows_on_step(ladder, grid, 1);
    if ladder.trades.grouped.trades@.contains_key(bin) {
        law_bins_on_grid(ladder.trades.raw@, ladder.step, bin);
    }
    let b = grid.best_bid.units as int;
    assert(b % s == 0 && bin as int % s == 0);
    assert(grid.row_price(1) == b);
    lemma_on_grid_apart(b, bin as int, s);
    law_row_brackets(grid, price);
    let idx = grid.row_of(price)->0 as int;
    law_rows_on_step(ladder, grid, idx);
    if idx != 0 {
        lemma_on_grid_apart(grid.row_price(idx), bin as int, s);
    }
}

/// Two multiples of `s` are equal or at least `s` apart.
pub proof fn lemma_on_grid_apart(x: int, y: int, s: int)
    requires
        s > 0,
        x % s == 0,
        y % s == 0,
    ensures
        x == y || x - y >= s || y - x >= s,
{
    vstd::arithmetic::div_mod::lemma_fundamental_div_mod(x, s);
    vstd::arithmetic::div_mod::lemma_fundamental_div_mod(y, s);
    let a = x / s;
    let b = y / s;
    if a > b {
        assert(s * a - s * b >= s) by (nonlinear_arith)
            requires
                a > b,
                s > 0,
        ;
    } else if b > a {
        assert(s * b - s * a >= s) by (nonlinear_arith)
            requires
                b > a,
                s > 0,
        ;
    }
}

/// Where the order book does not cross, all bids stand below the spread row and all
/// asks above it.
pub proof fn law_sides_keep_apart(ladder: Ladder, grid: PriceGrid, depth: Depth)
    requires
        ladder.wf(),
        ladder.is_grid(Some(grid)),
        is_regrouped(ladder.bids.orders@, depth.bids@, Side::Bid, ladder.step),
        is_regrouped(ladder.asks.orders@, depth.asks@, Side::Ask, ladder.step),
        forall|b: i64, a: i64| #[trigger]
            depth.bids@.contains_key(b) && #[trigger] depth.asks@.contains_key(a) ==> b < a,
    ensures
        forall|bin: i64| #[trigger]
            ladder.bids.orders@.contains_key(bin) ==> bin <= grid.best_bid.units,
        forall|bin: i64| #[trigger]
            ladder.asks.orders@.contains_key(bin) ==> bin >= grid.best_ask.units,
{
    let s = ladder.step.units as int;
    let bids = ladder.bids.orders@;
    let asks = ladder.asks.orders@;
    lemma_best_exists(bids, Side::Bid);
    lemma_best_exists(asks, Side::Ask);
    law_rows_on_step(ladder, grid, 1);
    assert forall|bin: i64| #[trigger] asks.contains_key(bin) implies bin >= grid.best_ask.units by {
        if let Some(bid) = best(bids, Side::Bid) {
            assert(bids.contains_key(bid.units));
            let b = choose|k: i64| #[trigger]
                depth.bids@.contains_key(k) && level_bin(Side::Bid, k, ladder.step) == bid.units;
            let a = choose|k: i64| #[trigger]
                depth.asks@.contains_key(k) && level_bin(Side::Ask, k, ladder.step) == bin;
            assert(b < a);
            law_side_bins(b as int, s);
            law_side_bins(a as int, s);
            lemma_on_grid_apart(bid.units as int, bin as int, s);
        }
    }
}

/// Summed from the spread, as orders are, quantities that are not negative do not shrink
/// from one row to the next one further away.
pub proof fn law_sums_grow(f: spec_fn(int) -> int, near: int, far: int)
    requires
        0 <= near <= far || far <= near <= 0,
        forall|idx: int| #[trigger] f(idx) >= 0,
    ensures
        0 <= cumulated(f, near) <= cumulated(f, far),
    decreases
            (if far < 0 {
                -far
            } else {
                far
            }),
{
    if far > 0 {
        law_sums_grow(
            f,
            if near < far {
                near
            } else {
                far - 1
            },
            far - 1,
        );
    } else if far < 0 {
        law_sums_grow(
            f,
            if far < near {
                near
            } else {
                far + 1
            },
            far + 1,
        );
    }
}

/// Summed from the edges of the screen, as trades are, quantities that are not negative
/// do not shrink from one row to the next one nearer to the spread. The row next to the
/// spread shows all of its side.
pub proof fn law_trade_sums_grow(
    f: spec_fn(int) -> int,
    first: int,
    last: int,
    near: int,
    far: int,
)
    requires
        first <= far <= near < 0 || 0 < near <= far <= last,
        forall|idx: int| #[trigger] f(idx) >= 0,
    ensures
        0 <= summed_from_edge(f, first, last, far) <= summed_from_edge(f, first, last, near),
        summed_from_edge(f, first, last, -1) == range_sum(f, first, -1),
        summed_from_edge(f, first, last, 1) == range_sum(f, 1, last),
    decreases distance(near, far),
{
    if near < 0 {
        lemma_range_sum_not_negative(f, first, far);
        if far < near {
            law_trade_sums_grow(f, first, last, near - 1, far);
        }
    } else {
        lemma_range_sum_not_negative(f, far, last);
        if near < far {
            law_trade_sums_grow(f, first, last, near + 1, far);
            lemma_range_sum_low(f, near, last);
        }
    }
}

proof fn lemma_range_sum_not_negative(f: spec_fn(int) -> int, low: int, high: int)
    requires
        forall|idx: int| #[trigger] f(idx) >= 0,
    ensures
        range_sum(f, low, high) >= 0,
    decreases high - low + 1,
{
    if low <= high {
        lemma_range_sum_not_negative(f, low, high - 1);
    }
}

/// What the largest quantities are depends on the quantities of the rows alone.
proof fn lemma_maxima_same(a: Seq<VisibleRow>, b: Seq<VisibleRow>)
    requires
        a.len() == b.len(),
    ensures
        (forall|j: int|
            0 <= j < a.len() ==> row_order_units((#[trigger] a[j]).row) == row_order_units(b[j].row))
            ==> max_order_units(a) == max_order_units(b),
        (forall|j: int|
            0 <= j < a.len() ==> row_trade_units(#[trigger] a[j]) == row_trade_units(b[j]))
            ==> max_trade_units(a) == max_trade_units(b),
    decreases a.len(),
{
    if a.len() > 0 {
        let n = a.len() - 1;
        let c = a.drop_last();
        let d = b.drop_last();
        lemma_maxima_same(c, d);
        assert(forall|j: int| 0 <= j < n ==> #[trigger] c[j] == a[j] && d[j] == b[j]);
        if forall|j: int|
            0 <= j < a.len() ==> row_order_units((#[trigger] a[j]).row) == row_order_units(b[j].row) {
            assert(row_order_units(a[n].row) == row_order_units(b[n].row));
            assert forall|j: int| 0 <= j < n implies row_order_units((#[trigger] c[j]).row)
                == row_order_units(d[j].row) by {
                assert(c[j] == a[j]);
            }
        }
        if forall|j: int|
            0 <= j < a.len() ==> row_trade_units(#[trigger] a[j]) == row_trade_units(b[j]) {
            assert(row_trade_units(a[n]) == row_trade_units(b[n]));
            assert forall|j: int| 0 <= j < n implies row_trade_units(#[trigger] c[j])
                == row_trade_units(d[j]) by {
                assert(c[j] == a[j]);
            }
        }
    }
}

/// Whether two rows are of the same kind, with the same price.
pub open spec fn same_place(a: VisibleRow, b: VisibleRow) -> bool {
    &&& a.idx == b.idx
    &&& match (a.row, b.row) {
        (DomRow::Ask { price: p, .. }, DomRow::Ask { price: q, .. }) => p == q,
        (DomRow::Bid { price: p, .. }, DomRow::Bid { price: q, .. }) => p == q,
        (DomRow::Spread, DomRow::Spread) => true,
        (DomRow::CenterDivider, DomRow::CenterDivider) => true,
        _ => false,
    }
}

/// Each of the two cumulative settings touches only its own figures. Whatever they are
/// set to, the same rows are on the screen; summing trades changes no order quantity and
/// not the largest of them, summing orders changes no traded quantity and not the
/// largest of them; and where the spread is not on the screen neither changes anything.
pub proof fn law_cumulative_settings(
    ladder: Ladder,
    grid: PriceGrid,
    first: int,
    last: int,
    sum_trades: bool,
    sum_orders: bool,
)
    ensures
        ({
            let config = LadderConfig {
                cumulative_trades: sum_trades,
                cumulative_orders: sum_orders,
                ..ladder.config
            };
            let a = ladder.screen(grid, first, last);
            let b = (Ladder { config, ..ladder }).screen(grid, first, last);
            &&& a.len() == b.len()
            &&& forall|j: int| 0 <= j < a.len() ==> same_place(#[trigger] a[j], b[j])
            &&& sum_orders == ladder.config.cumulative_orders ==> {
                &&& forall|j: int| 0 <= j < a.len() ==> (#[trigger] a[j]).row == b[j].row
                &&& max_order_units(a) == max_order_units(b)
            }
            &&& sum_trades == ladder.config.cumulative_trades ==> {
                &&& forall|j: int|
                    0 <= j < a.len() ==> (#[trigger] a[j]).buy_t == b[j].buy_t && a[j].sell_t
                        == b[j].sell_t
                &&& max_trade_units(a) == max_trade_units(b)
            }
            &&& !(first <= 0 <= last) ==> a == b
        }),
{
    let config = LadderConfig {
        cumulative_trades: sum_trades,
        cumulative_orders: sum_orders,
        ..ladder.config
    };
    let other = Ladder { config, ..ladder };
    let a = ladder.screen(grid, first, last);
    let b = other.screen(grid, first, last);
    assert(ladder.row_orders(grid) =~= other.row_orders(grid));
    assert(ladder.row_buys(grid) =~= other.row_buys(grid));
    assert(ladder.row_sells(grid) =~= other.row_sells(grid));
    assert(forall|j: int| 0 <= j < a.len() ==> same_place(#[trigger] a[j], b[j]));
    if !(first <= 0 <= last) {
        assert(a =~= b);
    }
    lemma_maxima_same(a, b);
}

/// No quantity on the rows exceeds the largest ones, and each of these is zero or that
/// of some row.
pub proof fn law_maxima(rows: Seq<VisibleRow>)
    ensures
        max_order_units(rows) >= 0,
        max_trade_units(rows) >= 0,
        forall|j: int|
            0 <= j < rows.len() ==> row_order_units((#[trigger] rows[j]).row) <= max_order_units(
                rows,
            ) && row_trade_units(rows[j]) <= max_trade_units(rows),
        max_order_units(rows) == 0 || exists|j: int|
            0 <= j < rows.len() && row_order_units((#[trigger] rows[j]).row) == max_order_units(
                rows,
            ),
        max_trade_units(rows) == 0 || exists|j: int|
            0 <= j < rows.len() && row_trade_units(#[trigger] rows[j]) == max_trade_units(rows),
    decreases rows.len(),
{
    if rows.len() > 0 {
        let head = rows.drop_last();
        law_maxima(head);
        assert(forall|j: int| 0 <= j < head.len() ==> head[j] == #[trigger] rows[j]);
        let n = rows.len() - 1;
        assert(rows[n] == rows.last());
        if max_order_units(head) != 0 {
            let j = choose|j: int|
                0 <= j < head.len() && row_order_units((#[trigger] head[j]).row)
                    == max_order_units(head);
            assert(rows[j] == head[j]);
        }
        if max_trade_units(head) != 0 {
            let j = choose|j: int|
                0 <= j < head.len() && row_trade_units(#[trigger] head[j]) == max_trade_units(
                    head,
                );
            assert(rows[j] == head[j]);
        }
    }
}

/// Which row stands where: the screen has one row for each number from `first` to `last`.
/// Row 0 is the spread, where that is wanted and the order book is grouped here, and a
/// divider otherwise, and shows no trades. The rows below are bids, from the best bid down
/// by one tick each; those above are asks, from the best ask up by one tick each.
pub proof fn law_rows_have_their_places(
    ladder: Ladder,
    grid: PriceGrid,
    first: i32,
    last: i32,
    idx: int,
)
    requires
        ladder.rows_fit(grid, first as int, last as int),
        first <= idx <= last,
    ensures
        ({
            let rows = ladder.screen(grid, first as int, last as int);
            let row = rows[idx - first];
            &&& rows.len() == last - first + 1
            &&& row.idx == idx
            &&& idx == 0 ==> {
                &&& row.row == (if ladder.config.show_spread
                    && ladder.ticker_info.depth_client_aggr {
                    DomRow::Spread
                } else {
                    DomRow::CenterDivider
                })
                &&& row.buy_t.units == 0 && row.sell_t.units == 0
            }
            &&& idx > 0 ==> (row.row matches DomRow::Bid { price, .. } && price.units
                == grid.best_bid.units - (idx - 1) * grid.tick.units)
            &&& idx < 0 ==> (row.row matches DomRow::Ask { price, .. } && price.units
                == grid.best_ask.units + (-1 - idx) * grid.tick.units)
        }),
{
    assert(idx != 0 ==> fits(grid.row_price(idx)));
}

/// Where orders are not summed, each row shows the orders in the bin at its price, of its
/// own side.
pub proof fn law_rows_show_their_orders(
    ladder: Ladder,
    grid: PriceGrid,
    first: i32,
    last: i32,
    idx: int,
)
    requires
        ladder.rows_fit(grid, first as int, last as int),
        first <= idx <= last,
        !ladder.config.cumulative_orders || !(first <= 0 <= last),
    ensures
        match ladder.screen(grid, first as int, last as int)[idx - first].row {
            DomRow::Bid { price, qty } => qty.units == (if ladder.bids.orders@.contains_key(
                price.units,
            ) {
                ladder.bids.orders@[price.units].units
            } else {
                0
            }),
            DomRow::Ask { price, qty } => qty.units == (if ladder.asks.orders@.contains_key(
                price.units,
            ) {
                ladder.asks.orders@[price.units].units
            } else {
                0
            }),
            _ => idx == 0,
        },
{
    assert(idx != 0 ==> fits(grid.row_price(idx)));
}

/// Where trades are not summed, each row shows what was bought and sold in the bin at its
/// price.
pub proof fn law_rows_show_their_trades(
    ladder: Ladder,
    grid: PriceGrid,
    first: i32,
    last: i32,
    idx: int,
)
    requires
        ladder.rows_fit(grid, first as int, last as int),
        first <= idx <= last,
        !ladder.config.cumulative_trades || !(first <= 0 <= last),
    ensures
        ({
            let row = ladder.screen(grid, first as int, last as int)[idx - first];
            let bins = ladder.trades.grouped.trades@;
            match row.row {
                DomRow::Bid { price, .. } | DomRow::Ask { price, .. } => if bins.contains_key(
                    price.units,
                ) {
                    row.buy_t == bins[price.units].buy_qty && row.sell_t
                        == bins[price.units].sell_qty
                } else {
                    row.buy_t.units == 0 && row.sell_t.units == 0
                },
                _ => idx == 0,
            }
        }),
{
    assert(idx != 0 ==> fits(grid.row_price(idx)));
}

/// Where orders are summed and the middle row is on the screen, whatever it shows, each
/// row adds the orders in the bin at its price to what the next row toward the middle
/// shows; the rows next to the middle show their own bin.
pub proof fn law_orders_add_up_outward(
    ladder: Ladder,
    grid: PriceGrid,
    first: i32,
    last: i32,
    idx: int,
)
    requires
        ladder.rows_fit(grid, first as int, last as int),
        first <= idx <= last,
        ladder.config.cumulative_orders,
        first <= 0 <= last,
        idx != 0,
    ensures
        ({
            let rows = ladder.screen(grid, first as int, last as int);
            if idx > 0 {
                let inner = match rows[idx - 1 - first].row {
                    DomRow::Bid { qty, .. } => qty.units as int,
                    _ => 0,
                };
                rows[idx - first].row matches DomRow::Bid { price, qty } && qty.units == inner + (
                if ladder.bids.orders@.contains_key(price.units) {
                    ladder.bids.orders@[price.units].units as int
                } else {
                    0
                })
            } else {
                let inner = match rows[idx + 1 - first].row {
                    DomRow::Ask { qty, .. } => qty.units as int,
                    _ => 0,
                };
                rows[idx - first].row matches DomRow::Ask { price, qty } && qty.units == inner + (
                if ladder.asks.orders@.contains_key(price.units) {
                    ladder.asks.orders@[price.units].units as int
                } else {
                    0
                })
            }
        }),
{
    let inner = if idx > 0 {
        idx - 1
    } else {
        idx + 1
    };
    assert(fits(grid.row_price(idx)));
    assert(fits(cumulated(ladder.row_orders(grid), idx)));
    assert(fits(cumulated(ladder.row_orders(grid), inner)));
    assert(inner != 0 ==> fits(grid.row_price(inner)));
}

/// Where trades are summed and the middle row is on the screen, whatever it shows, each
/// row adds what was bought and sold in the bin at its price to what the next row away
/// from the middle shows; the rows at the edges of the screen show their own bin.
pub proof fn law_trades_add_up_inward(
    ladder: Ladder,
    grid: PriceGrid,
    first: i32,
    last: i32,
    idx: int,
)
    requires
        ladder.rows_fit(grid, first as int, last as int),
        first <= idx <= last,
        ladder.config.cumulative_trades,
        first <= 0 <= last,
        idx != 0,
    ensures
        ({
            let rows = ladder.screen(grid, first as int, last as int);
            let bins = ladder.trades.grouped.trades@;
            let row = rows[idx - first];
            let (outer_buy, outer_sell) = if idx > 0 && idx < last {
                (
                    rows[idx + 1 - first].buy_t.units as int,
                    rows[idx + 1 - first].sell_t.units as int,
                )
            } else if idx < 0 && first < idx {
                (
                    rows[idx - 1 - first].buy_t.units as int,
                    rows[idx - 1 - first].sell_t.units as int,
                )
            } else {
                (0, 0)
            };
            match row.row {
                DomRow::Bid { price, .. } | DomRow::Ask { price, .. } => if bins.contains_key(
                    price.units,
                ) {
                    &&& row.buy_t.units == outer_buy + bins[price.units].buy_qty.units
                    &&& row.sell_t.units == outer_sell + bins[price.units].sell_qty.units
                } else {
                    row.buy_t.units == outer_buy && row.sell_t.units == outer_sell
                },
                _ => false,
            }
        }),
{
    let (f, l) = (first as int, last as int);
    let buys = ladder.row_buys(grid);
    let sells = ladder.row_sells(grid);
    assert(fits(grid.row_price(idx)));
    assert(fits(summed_from_edge(buys, f, l, idx)));
    assert(fits(summed_from_edge(sells, f, l, idx)));
    if idx > 0 {
        lemma_range_sum_low(buys, idx, l);
        lemma_range_sum_low(sells, idx, l);
        if idx < l {
            assert(fits(summed_from_edge(buys, f, l, idx + 1)));
            assert(fits(summed_from_edge(sells, f, l, idx + 1)));
        }
    } else if f < idx {
        assert(fits(summed_from_edge(buys, f, l, idx - 1)));
        assert(fits(summed_from_edge(sells, f, l, idx - 1)));
    } else {
        assert(range_sum(buys, f, idx - 1) == 0 && range_sum(sells, f, idx - 1) == 0);
    }
}

/// Whether the spread is shown, and where the order book is grouped, changes no row but
/// the middle one, and not the largest quantities.
pub proof fn law_middle_row_touches_no_other(
    ladder: Ladder,
    other: Ladder,
    grid: PriceGrid,
    first: int,
    last: int,
    j: int,
)
    requires
        other.config == (LadderConfig {
            show_spread: other.config.show_spread,
            ..ladder.config
        }),
        other.asks == ladder.asks,
        other.bids == ladder.bids,
        other.trades == ladder.trades,
        0 <= j <= last - first,
    ensures
        ({
            let a = ladder.screen(grid, first, last);
            let b = other.screen(grid, first, last);
            &&& a.len() == b.len()
            &&& first + j != 0 ==> a[j] == b[j]
            &&& max_order_units(a) == max_order_units(b)
            &&& max_trade_units(a) == max_trade_units(b)
        }),
{
    assert(ladder.row_orders(grid) =~= other.row_orders(grid));
    assert(ladder.row_buys(grid) =~= other.row_buys(grid));
    assert(ladder.row_sells(grid) =~= other.row_sells(grid));
    let a = ladder.screen(grid, first, last);
    let b = other.screen(grid, first, last);
    lemma_maxima_same(a, b);
}

/// The largest quantities in plain terms: no row shows more orders, buys or sells than
/// they say, and each of them is zero or shown on some row.
pub proof fn law_maxima_in_plain_terms(rows: Seq<VisibleRow>)
    ensures
        max_order_units(rows) >= 0,
        max_trade_units(rows) >= 0,
        forall|j: int|
            0 <= j < rows.len() ==> {
                &&& (#[trigger] rows[j]).buy_t.units <= max_trade_units(rows)
                &&& rows[j].sell_t.units <= max_trade_units(rows)
                &&& match rows[j].row {
                    DomRow::Ask { qty, .. } | DomRow::Bid { qty, .. } => qty.units
                        <= max_order_units(rows),
                    _ => true,
                }
            },
        max_order_units(rows) == 0 || exists|j: int|
            0 <= j < rows.len() && match (#[trigger] rows[j]).row {
                DomRow::Ask { qty, .. } | DomRow::Bid { qty, .. } => qty.units == max_order_units(
                    rows,
                ),
                _ => false,
            },
        max_trade_units(rows) == 0 || exists|j: int|
            0 <= j < rows.len() && ((#[trigger] rows[j]).buy_t.units == max_trade_units(rows)
                || rows[j].sell_t.units == max_trade_units(rows)),
{
    law_maxima(rows);
    if max_order_units(rows) != 0 {
        let j = choose|j: int|
            0 <= j < rows.len() && row_order_units((#[trigger] rows[j]).row) == max_order_units(
                rows,
            );
        assert(0 <= j < rows.len());
    }
    if max_trade_units(rows) != 0 {
        let j = choose|j: int|
            0 <= j < rows.len() && row_trade_units(#[trigger] rows[j]) == max_trade_units(rows);
        assert(rows[j].buy_t.units == max_trade_units(rows) || rows[j].sell_t.units
            == max_trade_units(rows));
    }
}

/// Without any order or trade there is no grid; with one there is, and its ask is one step
/// above its bid.
pub proof fn law_grid_needs_something(ladder: Ladder, grid: Option<PriceGrid>, k: i64)
    requires
        ladder.wf(),
        ladder.is_grid(grid),
    ensures
        grid is None ==> {
            &&& !ladder.bids.orders@.contains_key(k)
            &&& !ladder.asks.orders@.contains_key(k)
            &&& !ladder.trades.grouped.trades@.contains_key(k)
        },
        grid matches Some(g) ==> {
            &&& g.best_ask.units == g.best_bid.units + ladder.step.units
            &&& g.tick == ladder.step
            &&& ladder.bids.orders@ != Map::<i64, Qty>::empty() || ladder.asks.orders@ != Map::<
                i64,
                Qty,
            >::empty() || ladder.trades.grouped.trades@ != Map::<i64, GroupedTrades>::empty()
        },
{
}

/// With bids, the ladder is centred on the highest of them.
pub proof fn law_centre_is_the_best_bid(ladder: Ladder, grid: PriceGrid, k: i64)
    requires
        ladder.is_grid(Some(grid)),
        ladder.bids.orders@.contains_key(k),
    ensures
        ladder.bids.orders@.contains_key(grid.best_bid.units),
        k <= grid.best_bid.units,
{
    lemma_best_exists(ladder.bids.orders@, Side::Bid);
}

/// With asks and no bids, the ladder is centred right below the lowest ask.
pub proof fn law_centre_is_below_the_best_ask(ladder: Ladder, grid: PriceGrid, k: i64)
    requires
        ladder.is_grid(Some(grid)),
        ladder.bids.orders@ == Map::<i64, Qty>::empty(),
        ladder.asks.orders@.contains_key(k),
    ensures
        ladder.asks.orders@.contains_key(grid.best_ask.units),
        grid.best_ask.units <= k,
{
    lemma_best_exists(ladder.asks.orders@, Side::Ask);
}

/// With trades and no orders, the ladder is centred in the middle between the lowest and
/// the highest bin, or half a step below that, unless there are more steps between them
/// than a signed number holds.
pub proof fn law_centre_is_amid_the_trades(
    ladder: Ladder,
    grid: PriceGrid,
    low: Price,
    high: Price,
)
    requires
        ladder.wf(),
        ladder.is_grid(Some(grid)),
        ladder.bids.orders@ == Map::<i64, Qty>::empty(),
        ladder.asks.orders@ == Map::<i64, Qty>::empty(),
        ladder.trades.grouped.trades@.contains_key(low.units),
        ladder.trades.grouped.trades@.contains_key(high.units),
        forall|k: i64| #[trigger]
            ladder.trades.grouped.trades@.contains_key(k) ==> low.units <= k <= high.units,
        high.units - low.units < i64::MAX,
    ensures
        low.units + high.units - ladder.step.units <= 2 * grid.best_bid.units <= low.units
            + high.units,
{
    let bins = ladder.trades.grouped.trades@;
    lemma_price_range_exists(bins);
    let (l, h) = price_range_of(bins)->0;
    assert(bins.contains_key(l.units) && bins.contains_key(h.units));
    assert(l == low && h == high);
    law_bins_on_grid(ladder.trades.raw@, ladder.step, low.units);
    law_bins_on_grid(ladder.trades.raw@, ladder.step, high.units);
    lemma_centre_is_middle(low, high, ladder.step);
}

/// Of prices on multiples of the step, the centre is the middle one, or half a step below.
proof fn lemma_centre_is_middle(low: Price, high: Price, step: PriceStep)
    requires
        step.wf(),
        low.units <= high.units,
        high.units - low.units < i64::MAX,
        low.units as int % step.units as int == 0,
        high.units as int % step.units as int == 0,
    ensures
        ({
            let c = high.units - steps_to_centre(low, high, step) * step.units;
            low.units + high.units - step.units <= 2 * c <= low.units + high.units
        }),
{
    let s = step.units as int;
    let d = high.units - low.units;
    let q = d / s;
    vstd::arithmetic::div_mod::lemma_fundamental_div_mod(low.units as int, s);
    vstd::arithmetic::div_mod::lemma_fundamental_div_mod(high.units as int, s);
    vstd::arithmetic::div_mod::lemma_fundamental_div_mod(d, s);
    let a = low.units as int / s;
    let b = high.units as int / s;
    assert(d == (b - a) * s) by (nonlinear_arith)
        requires
            d == high.units - low.units,
            low.units == s * a,
            high.units == s * b,
    ;
    assert(b - a >= 0) by (nonlinear_arith)
        requires
            (b - a) * s >= 0,
            s > 0,
    ;
    vstd::arithmetic::div_mod::lemma_div_by_multiple(b - a, s);
    assert(q == b - a);
    vstd::arithmetic::div_mod::lemma_div_pos_is_pos(d, s);
    vstd::arithmetic::div_mod::lemma_div_nonincreasing(d, s);
    let n = steps_to_centre(low, high, step);
    assert(n == (q + 1) / 2);
    assert(q * s <= 2 * (n * s) <= q * s + s) by (nonlinear_arith)
        requires
            q <= 2 * n <= q + 1,
            s > 0,
    ;
}

/// Rows that show only their own quantities can be shown exactly if their prices can be
/// held.
pub proof fn law_when_plain_rows_can_be_shown(
    ladder: Ladder,
    grid: PriceGrid,
    first: int,
    last: int,
)
    requires
        !(first <= 0 <= last) || !(ladder.config.cumulative_trades
            || ladder.config.cumulative_orders),
    ensures
        ladder.rows_fit(grid, first, last) <==> forall|idx: int|
            first <= idx <= last && idx != 0 ==> i64::MIN <= #[trigger] grid.row_price(idx)
                <= i64::MAX,
{
    if ladder.rows_fit(grid, first, last) {
        assert forall|idx: int| first <= idx <= last && idx != 0 implies i64::MIN
            <= #[trigger] grid.row_price(idx) <= i64::MAX by {
            assert(fits(grid.row_price(idx)));
        }
    }
}

/// The grid around the highest bid, or below the lowest ask where there are no bids, can be
/// built exactly if the price beside it can be held.
pub proof fn law_when_a_grid_can_be_built(ladder: Ladder, k: i64)
    requires
        ladder.step.wf(),
    ensures
        ladder.bids.orders@.contains_key(k) && (forall|q: i64| #[trigger]
            ladder.bids.orders@.contains_key(q) ==> q <= k) ==> (ladder.grid_fits() <==> k
            + ladder.step.units <= i64::MAX),
        ladder.bids.orders@ == Map::<i64, Qty>::empty() && ladder.asks.orders@.contains_key(k) && (
        forall|q: i64| #[trigger] ladder.asks.orders@.contains_key(q) ==> k <= q) ==> (
        ladder.grid_fits() <==> k - ladder.step.units >= i64::MIN),
{
    lemma_best_exists(ladder.bids.orders@, Side::Bid);
    lemma_best_exists(ladder.asks.orders@, Side::Ask);
}

} // verus!
