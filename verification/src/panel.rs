//! What is drawn on each row of the ladder, short of colours and pixels.

use crate::book::{best, Side};
use crate::grid::{law_row_brackets, law_rows_descend, PriceGrid};
use crate::ladder::{Ladder, ViewMode};
use crate::rows::{
    law_maxima, law_maxima_in_plain_terms, lemma_on_grid_apart, lemma_shift_on_grid,
    max_order_units, max_trade_units, maxima_of, DomRow, Maxima, VisibleRow,
};
use crate::units::{
    distance, fits, law_nearest_in_plain_terms, law_side_in_plain_terms, nearest_multiple, side_multiple, smaller, Price, PriceStep, Qty,
};
use vstd::prelude::*;

verus! {

/// How the ladder is drawn.
#[derive(Clone, Copy, Debug, PartialEq, Eq, Structural)]
pub enum DrawMode {
    Original,
    VolumeProfile { stacked: bool },
}

/// A bar that fills `part` of `whole` of its column.
#[derive(Clone, Copy, Debug, PartialEq, Eq, Structural)]
pub struct Bar {
    pub part: Qty,
    pub whole: Qty,
}

/// The quantities that are written on a row.
#[derive(Clone, Copy, Debug, PartialEq, Eq, Structural)]
pub struct LevelTexts {
    pub order: Qty,
    pub sell: Qty,
    pub buy: Qty,
}

/// A row of the original view.
#[derive(Clone, Copy, Debug, PartialEq, Eq, Structural)]
pub enum Cell {
    Level {
        price: Price,
        is_bid: bool,
        order_bar: Option<Bar>,
        sell_bar: Option<Bar>,
        buy_bar: Option<Bar>,
        texts: Option<LevelTexts>,
    },
    /// The spread, if both sides of the order book have a best price.
    Spread { spread: Option<Price> },
    Divider,
}

/// The volume profile of a row. Bars start at the right edge.
#[derive(Clone, Copy, Debug, PartialEq, Eq, Structural)]
pub enum VpBars {
    /// Nothing was traded on any row.
    Nothing,
    /// A bar of what was sold, and left of it a bar of what was bought.
    Stacked { ask_part: Qty, bid_part: Qty, whole: Qty },
    /// A bar of the difference, for the side that prevails.
    Delta { part: Qty, whole: Qty, buys_prevail: bool },
}

/// A signed difference between what was bought and sold.
#[derive(Clone, Copy, Debug, PartialEq, Eq, Structural)]
pub struct DeltaLabel {
    pub buys_prevail: bool,
    pub qty: Qty,
}

/// A row of the volume profile views.
#[derive(Clone, Copy, Debug, PartialEq, Eq, Structural)]
pub enum VpCell {
    Level {
        price: Price,
        is_bid: bool,
        order_bar: Option<Bar>,
        order_text: Option<Qty>,
        bars: VpBars,
        label: Option<DeltaLabel>,
    },
    /// The spread, if both sides of the order book have a best price.
    Spread { spread: Option<Price> },
    Divider,
}

/// Where a chased price came from and where it is: a line from row `start`, if that is
/// known, to a dot on row `end`.
#[derive(Clone, Copy, Debug, PartialEq, Eq, Structural)]
pub struct ChaseTrail {
    pub start: Option<i32>,
    pub end: i32,
}

/// All that the original view shows: its rows from the top down, the rows of the best
/// prices and of the spread as far as they are on the screen, and the trails of chased
/// prices.
#[derive(Clone, Debug)]
pub struct OriginalPlan {
    pub cells: Vec<(i32, Cell)>,
    pub best_bid_row: Option<i32>,
    pub best_ask_row: Option<i32>,
    pub spread_row: Option<i32>,
    pub bid_trail: Option<ChaseTrail>,
    pub ask_trail: Option<ChaseTrail>,
}

/// All that the volume profile views show: their rows from the top down, and the spread
/// row if it is on the screen and there is a spread to show.
#[derive(Clone, Debug)]
pub struct VpPlan {
    pub cells: Vec<(i32, VpCell)>,
    pub spread_row: Option<i32>,
}

/// A bar is drawn only for a positive quantity, measured by a positive one.
pub open spec fn bar_of(value: Qty, max: Qty) -> Option<Bar> {
    if value.units > 0 && max.units > 0 {
        Some(Bar { part: value, whole: max })
    } else {
        None
    }
}

/// The bars of a row, if `max` is the largest traded quantity on any row. No bar is
/// longer than the panel is wide, nor are two stacked ones together.
pub open spec fn vp_bars_of(buy: Qty, sell: Qty, max: Qty, stacked: bool) -> VpBars {
    if max.units <= 0 {
        VpBars::Nothing
    } else if stacked {
        let ask_part = smaller(sell.units as int, max.units as int);
        VpBars::Stacked {
            ask_part: Qty { units: ask_part as i64 },
            bid_part: Qty { units: smaller(buy.units as int, max.units - ask_part) as i64 },
            whole: max,
        }
    } else {
        VpBars::Delta {
            part: Qty {
                units: smaller(
                    distance(buy.units as int, sell.units as int),
                    max.units as int,
                ) as i64,
            },
            whole: max,
            buys_prevail: buy.units >= sell.units,
        }
    }
}

/// The label of a row on which something was traded.
pub open spec fn delta_label_of(buy: Qty, sell: Qty, max: Qty, show_text: bool) -> Option<
    DeltaLabel,
> {
    if show_text && max.units > 0 && (buy.units > 0 || sell.units > 0) {
        Some(
            DeltaLabel {
                buys_prevail: buy.units >= sell.units,
                qty: Qty { units: distance(buy.units as int, sell.units as int) as i64 },
            },
        )
    } else {
        None
    }
}

/// The bar for a quantity, measured by `max`.
pub fn bar(value: Qty, max: Qty) -> (r: Option<Bar>)
    ensures
        r == bar_of(value, max),
{
    if max.units <= 0 || value.units <= 0 {
        None
    } else {
        Some(Bar { part: value, whole: max })
    }
}

/// The volume profile of a row on which `buy` was bought and `sell` was sold.
pub fn vp_bars(buy: Qty, sell: Qty, max: Qty, stacked: bool) -> (r: VpBars)
    requires
        fits(distance(buy.units as int, sell.units as int)),
    ensures
        r == vp_bars_of(buy, sell, max, stacked),
{
    if max.units <= 0 {
        return VpBars::Nothing;
    }
    if stacked {
        let ask_part = if sell.units <= max.units {
            sell
        } else {
            max
        };
        let room: i128 = max.units as i128 - ask_part.units as i128;
        let bid_part = if buy.units as i128 <= room {
            buy
        } else {
            Qty { units: room as i64 }
        };
        VpBars::Stacked { ask_part, bid_part, whole: max }
    } else {
        let delta = buy.abs_diff(sell);
        let part = if delta.units <= max.units {
            delta
        } else {
            max
        };
        VpBars::Delta { part, whole: max, buys_prevail: buy.units >= sell.units }
    }
}

/// The label of a row on which `buy` was bought and `sell` was sold.
pub fn delta_label(buy: Qty, sell: Qty, max: Qty, show_text: bool) -> (r: Option<DeltaLabel>)
    requires
        fits(distance(buy.units as int, sell.units as int)),
    ensures
        r == delta_label_of(buy, sell, max, show_text),
{
    if show_text && max.units > 0 && (buy.units > 0 || sell.units > 0) {
        Some(
            DeltaLabel { buys_prevail: buy.units >= sell.units, qty: buy.abs_diff(sell) },
        )
    } else {
        None
    }
}

/// The largest quantity bought or sold on any row.
pub fn max_single_vp_qty(rows: &Vec<VisibleRow>) -> (r: Qty)
    ensures
        r.units == max_trade_units(rows@),
{
    maxima_of(rows).vis_max_trade_qty
}

/// A text for the difference between what was bought and sold, if `text` is the one for
/// its size.
pub fn delta_text(label: DeltaLabel, text: &str) -> (r: String)
    ensures
        r@ == (if label.buys_prevail {
            "+"@
        } else {
            "-"@
        }) + text@,
{
    let mut r = if label.buys_prevail {
        "+".to_owned()
    } else {
        "-".to_owned()
    };
    r.append(text);
    r
}

/// A text for the spread, if `text` is the one for its size.
pub fn spread_text(text: &str) -> (r: String)
    ensures
        r@ == "Spread: "@ + text@,
{
    let mut r = "Spread: ".to_owned();
    r.append(text);
    r
}

/// The length of a text, in bytes.
pub open spec fn text_len(text: Seq<char>) -> usize {
    vstd::utf8::encode_utf8(text).len() as usize
}

/// Of the texts for best ask and best bid, the one that takes more room.
pub fn price_sample_text(ask: String, bid: String) -> (r: String)
    ensures
        r@ == (if text_len(ask@) >= text_len(bid@) {
            ask@
        } else {
            bid@
        }),
{
    if ask.as_str().len() >= bid.as_str().len() {
        ask
    } else {
        bid
    }
}

/// Whether a row is the one of `price`, on the given side.
pub open spec fn is_row_of(row: DomRow, side: Side, price: Option<Price>) -> bool {
    match row {
        DomRow::Ask { price: p, .. } => side is Ask && price == Some(p),
        DomRow::Bid { price: p, .. } => side is Bid && price == Some(p),
        _ => false,
    }
}

/// Whether `idx` is the last of the rows of `price`, on the given side. There is only
/// one unless two rows have the same price.
pub open spec fn is_best_row(
    rows: Seq<VisibleRow>,
    side: Side,
    price: Option<Price>,
    idx: Option<i32>,
) -> bool {
    match idx {
        Some(idx) => exists|j: int|
            0 <= j < rows.len() && (#[trigger] rows[j]).idx == idx && is_row_of(
                rows[j].row,
                side,
                price,
            ) && forall|k: int|
                j < k < rows.len() ==> !is_row_of((#[trigger] rows[k]).row, side, price),
        None => forall|k: int|
            0 <= k < rows.len() ==> !is_row_of((#[trigger] rows[k]).row, side, price),
    }
}

/// The rows of a chased price: its bins' rows, or that of the best offer where the
/// price has moved to is on no row.
pub open spec fn trail_of(
    grid: PriceGrid,
    segment: Option<(Price, Price)>,
    is_bid: bool,
    best_offer: Option<i32>,
) -> Option<ChaseTrail> {
    match segment {
        Some((start, end)) => {
            let end_row = match grid.row_of(side_price(end, is_bid, grid.tick)) {
                Some(idx) => Some(idx),
                None => best_offer,
            };
            match end_row {
                Some(idx) => Some(
                    ChaseTrail {
                        start: grid.row_of(side_price(start, is_bid, grid.tick)),
                        end: idx,
                    },
                ),
                None => None,
            }
        },
        None => None,
    }
}

/// The bin of a price on the given side.
pub open spec fn side_price(price: Price, is_bid: bool, step: PriceStep) -> Price {
    Price { units: side_multiple(is_bid, price.units as int, step.units as int) as i64 }
}

/// Whether bin and row of a chased price can be held.
pub open spec fn chased_fits(grid: PriceGrid, price: Price, is_bid: bool) -> bool {
    &&& fits(side_multiple(is_bid, price.units as int, grid.tick.units as int))
    &&& grid.has_row(side_price(price, is_bid, grid.tick))
}

/// Whether bins and rows of a segment can be held.
pub open spec fn segment_fits(
    grid: PriceGrid,
    segment: Option<(Price, Price)>,
    is_bid: bool,
) -> bool {
    segment matches Some((start, end)) ==> chased_fits(grid, start, is_bid) && chased_fits(
        grid,
        end,
        is_bid,
    )
}

fn check_chased(grid: &PriceGrid, price: Price, is_bid: bool) -> (r: bool)
    requires
        grid.tick.wf(),
    ensures
        r == chased_fits(*grid, price, is_bid),
{
    match price.checked_side_step(is_bid, grid.tick) {
        Some(bin) => {
            assert(bin == side_price(price, is_bid, grid.tick));
            grid.can_index(bin)
        },
        None => false,
    }
}

/// Whether [`chase_trail`] can hold bins and rows of the segment.
pub fn can_trail(grid: &PriceGrid, segment: Option<(Price, Price)>, is_bid: bool) -> (r: bool)
    requires
        grid.tick.wf(),
    ensures
        r == segment_fits(*grid, segment, is_bid),
{
    match segment {
        Some((start, end)) => check_chased(grid, start, is_bid) && check_chased(grid, end, is_bid),
        None => true,
    }
}

/// Where to draw the trail of a price that was chased from the first price of the
/// segment to the second. `best_offer` is the row of the best price on the other side.
pub fn chase_trail(
    grid: &PriceGrid,
    segment: Option<(Price, Price)>,
    is_bid: bool,
    best_offer: Option<i32>,
) -> (r: Option<ChaseTrail>)
    requires
        grid.tick.wf(),
        segment_fits(*grid, segment, is_bid),
    ensures
        r == trail_of(*grid, segment, is_bid, best_offer),
{
    match segment {
        Some((start, end)) => {
            let start_bin = start.round_to_side_step(is_bid, grid.tick);
            let end_bin = end.round_to_side_step(is_bid, grid.tick);
            assert(start_bin == side_price(start, is_bid, grid.tick));
            assert(end_bin == side_price(end, is_bid, grid.tick));
            let start_row = grid.price_to_index(start_bin);
            let end_row = match grid.price_to_index(end_bin) {
                Some(idx) => Some(idx),
                None => best_offer,
            };
            match end_row {
                Some(end) => Some(ChaseTrail { start: start_row, end }),
                None => None,
            }
        },
        None => None,
    }
}

impl Ladder {
    /// The spread, rounded to the smallest price increment.
    pub open spec fn spread_shown(self) -> Option<int> {
        match self.raw_price_spread {
            Some(spread) => Some(
                nearest_multiple(
                    spread.units as int,
                    self.ticker_info.min_ticksize.units as int,
                ),
            ),
            None => None,
        }
    }

    /// Whether the rounded spread can be held.
    pub open spec fn spread_fits(self) -> bool {
        &&& self.ticker_info.min_ticksize.wf()
        &&& self.spread_shown() matches Some(spread) ==> fits(spread)
    }

    /// What a row of the original view shows.
    pub open spec fn cell_of(self, row: VisibleRow, maxima: Maxima) -> Cell {
        match row.row {
            DomRow::Ask { price, qty } => self.level_of(row, price, qty, false, maxima),
            DomRow::Bid { price, qty } => self.level_of(row, price, qty, true, maxima),
            DomRow::Spread => Cell::Spread { spread: self.spread_price() },
            DomRow::CenterDivider => Cell::Divider,
        }
    }

    pub open spec fn spread_price(self) -> Option<Price> {
        match self.spread_shown() {
            Some(spread) => Some(Price { units: spread as i64 }),
            None => None,
        }
    }

    pub open spec fn level_of(
        self,
        row: VisibleRow,
        price: Price,
        qty: Qty,
        is_bid: bool,
        maxima: Maxima,
    ) -> Cell {
        Cell::Level {
            price,
            is_bid,
            order_bar: bar_of(qty, maxima.vis_max_order_qty),
            sell_bar: bar_of(row.sell_t, maxima.vis_max_trade_qty),
            buy_bar: bar_of(row.buy_t, maxima.vis_max_trade_qty),
            texts: if self.config.show_trade_text {
                Some(LevelTexts { order: qty, sell: row.sell_t, buy: row.buy_t })
            } else {
                None
            },
        }
    }

    /// What a row of the volume profile views shows, if `max` is the largest traded
    /// quantity on any row.
    pub open spec fn vp_cell_of(
        self,
        row: VisibleRow,
        maxima: Maxima,
        max: Qty,
        stacked: bool,
    ) -> VpCell {
        match row.row {
            DomRow::Ask { price, qty } => self.vp_level_of(
                row,
                price,
                qty,
                false,
                maxima,
                max,
                stacked,
            ),
            DomRow::Bid { price, qty } => self.vp_level_of(
                row,
                price,
                qty,
                true,
                maxima,
                max,
                stacked,
            ),
            DomRow::Spread => VpCell::Spread { spread: self.spread_price() },
            DomRow::CenterDivider => VpCell::Divider,
        }
    }

    pub open spec fn vp_level_of(
        self,
        row: VisibleRow,
        price: Price,
        qty: Qty,
        is_bid: bool,
        maxima: Maxima,
        max: Qty,
        stacked: bool,
    ) -> VpCell {
        VpCell::Level {
            price,
            is_bid,
            order_bar: bar_of(qty, maxima.vis_max_order_qty),
            order_text: if self.config.show_trade_text {
                Some(qty)
            } else {
                None
            },
            bars: vp_bars_of(row.buy_t, row.sell_t, max, stacked),
            label: delta_label_of(row.buy_t, row.sell_t, max, self.config.show_trade_text),
        }
    }

    /// How the configuration wants the ladder drawn.
    pub fn draw_mode(&self) -> (r: DrawMode)
        ensures
            r == (match self.config.view_mode {
                ViewMode::Original => DrawMode::Original,
                ViewMode::StackedVP => DrawMode::VolumeProfile { stacked: true },
                ViewMode::DeltaVP => DrawMode::VolumeProfile { stacked: false },
            }),
    {
        match self.config.view_mode {
            ViewMode::Original => DrawMode::Original,
            ViewMode::StackedVP => DrawMode::VolumeProfile { stacked: true },
            ViewMode::DeltaVP => DrawMode::VolumeProfile { stacked: false },
        }
    }

    /// Whether the rounded spread can be held.
    pub fn can_round_spread(&self) -> (r: bool)
        ensures
            r == self.spread_fits(),
    {
        if self.ticker_info.min_ticksize.units <= 0 {
            return false;
        }
        match self.raw_price_spread {
            Some(spread) => spread.can_round_to_step(self.ticker_info.min_ticksize),
            None => true,
        }
    }

    /// The spread, rounded to the smallest price increment. None where a side of the
    /// order book is empty.
    pub fn rounded_spread(&self) -> (r: Option<Price>)
        requires
            self.spread_fits(),
        ensures
            r == self.spread_price(),
    {
        match self.raw_price_spread {
            Some(spread) => Some(spread.round_to_step(self.ticker_info.min_ticksize)),
            None => None,
        }
    }

    /// What a row of the original view shows.
    pub fn cell(&self, row: &VisibleRow, maxima: &Maxima) -> (r: Cell)
        requires
            self.spread_fits(),
        ensures
            r == self.cell_of(*row, *maxima),
    {
        let (price, qty, is_bid) = match row.row {
            DomRow::Ask { price, qty } => (price, qty, false),
            DomRow::Bid { price, qty } => (price, qty, true),
            DomRow::Spread => {
                return Cell::Spread { spread: self.rounded_spread() };
            },
            DomRow::CenterDivider => {
                return Cell::Divider;
            },
        };
        let texts = if self.config.show_trade_text {
            Some(LevelTexts { order: qty, sell: row.sell_t, buy: row.buy_t })
        } else {
            None
        };
        Cell::Level {
            price,
            is_bid,
            order_bar: bar(qty, maxima.vis_max_order_qty),
            sell_bar: bar(row.sell_t, maxima.vis_max_trade_qty),
            buy_bar: bar(row.buy_t, maxima.vis_max_trade_qty),
            texts,
        }
    }

    /// What a row of the volume profile views shows, if `max` is the largest traded
    /// quantity on any row.
    pub fn vp_cell(&self, row: &VisibleRow, maxima: &Maxima, max: Qty, stacked: bool) -> (r: VpCell)
        requires
            self.spread_fits(),
            fits(distance(row.buy_t.units as int, row.sell_t.units as int)),
        ensures
            r == self.vp_cell_of(*row, *maxima, max, stacked),
    {
        let (price, qty, is_bid) = match row.row {
            DomRow::Ask { price, qty } => (price, qty, false),
            DomRow::Bid { price, qty } => (price, qty, true),
            DomRow::Spread => {
                return VpCell::Spread { spread: self.rounded_spread() };
            },
            DomRow::CenterDivider => {
                return VpCell::Divider;
            },
        };
        let order_text = if self.config.show_trade_text {
            Some(qty)
        } else {
            None
        };
        VpCell::Level {
            price,
            is_bid,
            order_bar: bar(qty, maxima.vis_max_order_qty),
            order_text,
            bars: vp_bars(row.buy_t, row.sell_t, max, stacked),
            label: delta_label(row.buy_t, row.sell_t, max, self.config.show_trade_text),
        }
    }

    /// The row of the best price of a side, if it is on the screen.
    pub fn best_row(&self, rows: &Vec<VisibleRow>, side: Side) -> (r: Option<i32>)
        ensures
            is_best_row(
                rows@,
                side,
                match side {
                    Side::Bid => best(self.bids.orders@, Side::Bid),
                    Side::Ask => best(self.asks.orders@, Side::Ask),
                },
                r,
            ),
    {
        let price = match self.best_price(side) {
            Some(price) => price,
            None => {
                return None;
            },
        };
        let mut i: usize = rows.len();
        while i > 0
            invariant
                i <= rows.len(),
                Some(price) == (match side {
                    Side::Bid => best(self.bids.orders@, Side::Bid),
                    Side::Ask => best(self.asks.orders@, Side::Ask),
                }),
                forall|k: int|
                    i <= k < rows.len() ==> !is_row_of((#[trigger] rows@[k]).row, side, Some(price)),
            decreases i,
        {
            i = i - 1;
            let row = rows[i];
            let found = match row.row {
                DomRow::Ask { price: p, .. } => side == Side::Ask && p == price,
                DomRow::Bid { price: p, .. } => side == Side::Bid && p == price,
                _ => false,
            };
            if found {
                return Some(row.idx);
            }
        }
        None
    }

    /// The spread row, if it is on the screen and there is a spread to show.
    pub fn spread_row(&self, rows: &Vec<VisibleRow>) -> (r: Option<i32>)
        ensures
            match r {
                Some(idx) => self.raw_price_spread is Some && exists|j: int|
                    0 <= j < rows@.len() && (#[trigger] rows@[j]).row is Spread && rows@[j].idx
                        == idx && forall|k: int|
                        j < k < rows@.len() ==> !((#[trigger] rows@[k]).row is Spread),
                None => self.raw_price_spread is None || forall|k: int|
                    0 <= k < rows@.len() ==> !((#[trigger] rows@[k]).row is Spread),
            },
    {
        if self.raw_price_spread.is_none() {
            return None;
        }
        let mut i: usize = rows.len();
        while i > 0
            invariant
                i <= rows.len(),
                self.raw_price_spread is Some,
                forall|k: int| i <= k < rows.len() ==> !((#[trigger] rows@[k]).row is Spread),
            decreases i,
        {
            i = i - 1;
            let row = rows[i];
            if matches!(row.row, DomRow::Spread) {
                return Some(row.idx);
            }
        }
        None
    }
}

/// The largest quantities on the given rows.
pub open spec fn maxima_on(rows: Seq<VisibleRow>) -> Maxima {
    Maxima {
        vis_max_order_qty: Qty { units: max_order_units(rows) as i64 },
        vis_max_trade_qty: Qty { units: max_trade_units(rows) as i64 },
    }
}

/// Whether the differences between bought and sold quantity can be held.
pub open spec fn deltas_fit(rows: Seq<VisibleRow>) -> bool {
    forall|j: int|
        0 <= j < rows.len() ==> fits(
            distance((#[trigger] rows[j]).buy_t.units as int, rows[j].sell_t.units as int),
        )
}

impl Ladder {
    /// The rows of the original view.
    pub open spec fn original_cells(self, grid: PriceGrid, first: int, last: int) -> Seq<
        (i32, Cell),
    > {
        let rows = self.screen(grid, first, last);
        rows.map_values(|row: VisibleRow| (row.idx, self.cell_of(row, maxima_on(rows))))
    }

    /// The rows of the volume profile views.
    pub open spec fn vp_cells(
        self,
        grid: PriceGrid,
        first: int,
        last: int,
        stacked: bool,
    ) -> Seq<(i32, VpCell)> {
        let rows = self.screen(grid, first, last);
        let max = Qty { units: max_trade_units(rows) as i64 };
        rows.map_values(
            |row: VisibleRow| (row.idx, self.vp_cell_of(row, maxima_on(rows), max, stacked)),
        )
    }

    /// The spread row, if it is on the screen and there is a spread to show.
    pub open spec fn spread_row_at(self, first: int, last: int) -> Option<i32> {
        if first <= 0 <= last && self.middle_row() is Spread && self.raw_price_spread is Some {
            Some(0i32)
        } else {
            None
        }
    }

    /// Whether `plan` is what the original view shows.
    pub open spec fn is_original_plan(
        self,
        plan: OriginalPlan,
        grid: PriceGrid,
        first: int,
        last: int,
        bid_segment: Option<(Price, Price)>,
        ask_segment: Option<(Price, Price)>,
    ) -> bool {
        let rows = self.screen(grid, first, last);
        &&& plan.cells@ == self.original_cells(grid, first, last)
        &&& is_best_row(rows, Side::Bid, best(self.bids.orders@, Side::Bid), plan.best_bid_row)
        &&& is_best_row(rows, Side::Ask, best(self.asks.orders@, Side::Ask), plan.best_ask_row)
        &&& plan.spread_row == self.spread_row_at(first, last)
        &&& plan.bid_trail == (if self.config.show_chase_tracker {
            trail_of(grid, bid_segment, true, plan.best_ask_row)
        } else {
            None
        })
        &&& plan.ask_trail == (if self.config.show_chase_tracker {
            trail_of(grid, ask_segment, false, plan.best_bid_row)
        } else {
            None
        })
    }

    /// Whether everything that the original view shows can be held.
    pub open spec fn original_fits(
        self,
        grid: PriceGrid,
        first: int,
        last: int,
        bid_segment: Option<(Price, Price)>,
        ask_segment: Option<(Price, Price)>,
    ) -> bool {
        &&& grid.tick.wf()
        &&& self.rows_fit(grid, first, last)
        &&& self.spread_fits()
        &&& self.config.show_chase_tracker ==> segment_fits(grid, bid_segment, true)
            && segment_fits(grid, ask_segment, false)
    }

    /// Whether everything that the volume profile views show can be held.
    pub open spec fn vp_fits(self, grid: PriceGrid, first: int, last: int) -> bool {
        &&& self.rows_fit(grid, first, last)
        &&& self.spread_fits()
        &&& deltas_fit(self.screen(grid, first, last))
    }

    /// Whether [`Ladder::plan_original`] can hold everything.
    pub fn can_plan_original(
        &self,
        grid: &PriceGrid,
        first: i32,
        last: i32,
        bid_segment: Option<(Price, Price)>,
        ask_segment: Option<(Price, Price)>,
    ) -> (r: bool)
        ensures
            r == self.original_fits(*grid, first as int, last as int, bid_segment, ask_segment),
    {
        grid.tick.units > 0 && self.can_show_rows(grid, first, last) && self.can_round_spread() && (
        !self.config.show_chase_tracker || (can_trail(grid, bid_segment, true) && can_trail(
            grid,
            ask_segment,
            false,
        )))
    }

    /// Whether [`Ladder::plan_vp`] can hold everything.
    pub fn can_plan_vp(&self, grid: &PriceGrid, first: i32, last: i32) -> (r: bool)
        ensures
            r == self.vp_fits(*grid, first as int, last as int),
    {
        if !self.can_show_rows(grid, first, last) || !self.can_round_spread() {
            return false;
        }
        let (rows, _) = self.visible_rows(grid, first, last);
        let mut i: usize = 0;
        while i < rows.len()
            invariant
                i <= rows.len(),
                forall|j: int|
                    0 <= j < i ==> fits(
                        distance(
                            (#[trigger] rows@[j]).buy_t.units as int,
                            rows@[j].sell_t.units as int,
                        ),
                    ),
                rows@ == self.screen(*grid, first as int, last as int),
            decreases rows.len() - i,
        {
            let row = rows[i];
            if !row.buy_t.can_abs_diff(row.sell_t) {
                assert(!deltas_fit(rows@));
                return false;
            }
            i = i + 1;
        }
        true
    }

    /// What the original view shows on the rows from `first` to `last`. A segment is
    /// where a chased best price came from and where it is.
    pub fn plan_original(
        &self,
        grid: &PriceGrid,
        first: i32,
        last: i32,
        bid_segment: Option<(Price, Price)>,
        ask_segment: Option<(Price, Price)>,
    ) -> (r: OriginalPlan)
        requires
            self.original_fits(*grid, first as int, last as int, bid_segment, ask_segment),
        ensures
            self.is_original_plan(r, *grid, first as int, last as int, bid_segment, ask_segment),
    {
        let (rows, maxima) = self.visible_rows(grid, first, last);
        let mut cells: Vec<(i32, Cell)> = Vec::new();
        let mut i: usize = 0;
        while i < rows.len()
            invariant
                i <= rows.len(),
                self.spread_fits(),
                maxima == maxima_on(rows@),
                cells@.len() == i,
                forall|j: int|
                    0 <= j < i ==> (#[trigger] cells@[j]) == (
                        rows@[j].idx,
                        self.cell_of(rows@[j], maxima),
                    ),
            decreases rows.len() - i,
        {
            cells.push((rows[i].idx, self.cell(&rows[i], &maxima)));
            i = i + 1;
        }
        assert(cells@ =~= self.original_cells(*grid, first as int, last as int));
        let best_bid_row = self.best_row(&rows, Side::Bid);
        let best_ask_row = self.best_row(&rows, Side::Ask);
        let spread_row = self.spread_row(&rows);
        proof {
            self.lemma_spread_row(*grid, first as int, last as int);
        }
        let (bid_trail, ask_trail) = if self.config.show_chase_tracker {
            (
                chase_trail(grid, bid_segment, true, best_ask_row),
                chase_trail(grid, ask_segment, false, best_bid_row),
            )
        } else {
            (None, None)
        };
        OriginalPlan { cells, best_bid_row, best_ask_row, spread_row, bid_trail, ask_trail }
    }

    /// What the volume profile views show on the rows from `first` to `last`. If
    /// `stacked`, what was sold and bought stands side by side, else the difference.
    pub fn plan_vp(&self, grid: &PriceGrid, first: i32, last: i32, stacked: bool) -> (r: VpPlan)
        requires
            self.vp_fits(*grid, first as int, last as int),
        ensures
            r.cells@ == self.vp_cells(*grid, first as int, last as int, stacked),
            r.spread_row == self.spread_row_at(first as int, last as int),
    {
        let (rows, maxima) = self.visible_rows(grid, first, last);
        let max = max_single_vp_qty(&rows);
        let mut cells: Vec<(i32, VpCell)> = Vec::new();
        let mut i: usize = 0;
        while i < rows.len()
            invariant
                i <= rows.len(),
                self.spread_fits(),
                deltas_fit(rows@),
                cells@.len() == i,
                forall|j: int|
                    0 <= j < i ==> (#[trigger] cells@[j]) == (
                        rows@[j].idx,
                        self.vp_cell_of(rows@[j], maxima, max, stacked),
                    ),
            decreases rows.len() - i,
        {
            assert(rows@[i as int] == rows[i as int]);
            cells.push((rows[i].idx, self.vp_cell(&rows[i], &maxima, max, stacked)));
            i = i + 1;
        }
        assert(maxima == maxima_on(rows@));
        assert(max == Qty { units: max_trade_units(rows@) as i64 });
        assert(cells@ =~= self.vp_cells(*grid, first as int, last as int, stacked));
        let spread_row = self.spread_row(&rows);
        proof {
            self.lemma_spread_row(*grid, first as int, last as int);
        }
        VpPlan { cells, spread_row }
    }

    /// The spread stands on the middle row and on no other.
    proof fn lemma_spread_row(self, grid: PriceGrid, first: int, last: int)
        ensures
            ({
                let rows = self.screen(grid, first, last);
                &&& forall|j: int|
                    0 <= j < rows.len() ==> ((#[trigger] rows[j]).row is Spread <==> first + j == 0
                        && self.middle_row() is Spread)
                &&& first <= 0 <= last ==> rows[-first].idx == 0 && rows[-first].row
                    == self.middle_row()
            }),
    {
    }
}

/// Stacked bars of quantities that are not negative fill no more than the panel
/// between them, and the bar of what was sold is never cut short for the other.
pub proof fn law_stacked_bars(buy: Qty, sell: Qty, max: Qty)
    requires
        0 <= buy.units,
        0 <= sell.units <= max.units,
        0 < max.units,
    ensures
        vp_bars_of(buy, sell, max, true) matches VpBars::Stacked { ask_part, bid_part, whole } && {
            &&& whole == max
            &&& ask_part == sell
            &&& 0 <= bid_part.units <= buy.units
            &&& ask_part.units + bid_part.units <= whole.units
        },
{
}

/// The bar of the difference of quantities that are not negative shows all of it, and
/// is empty only where as much was bought as was sold.
pub proof fn law_delta_bar(buy: Qty, sell: Qty, max: Qty)
    requires
        0 <= buy.units <= max.units,
        0 <= sell.units <= max.units,
        0 < max.units,
    ensures
        vp_bars_of(buy, sell, max, false) matches VpBars::Delta { part, whole, buys_prevail } && {
            &&& whole == max
            &&& buy.units - sell.units == (if buys_prevail {
                part.units as int
            } else {
                -part.units
            })
            &&& part.units == 0 <==> buy == sell
        },
{
}

/// Measured by the largest quantities on the screen, no bar is longer than its column is
/// wide.
pub proof fn law_bars_fit(ladder: Ladder, rows: Seq<VisibleRow>, maxima: Maxima, j: int)
    requires
        0 <= j < rows.len(),
        maxima.vis_max_order_qty.units == max_order_units(rows),
        maxima.vis_max_trade_qty.units == max_trade_units(rows),
    ensures
        ladder.cell_of(rows[j], maxima) matches Cell::Level {
            order_bar,
            sell_bar,
            buy_bar,
            ..
        } ==> {
            &&& order_bar matches Some(bar) ==> 0 < bar.part.units <= bar.whole.units
            &&& sell_bar matches Some(bar) ==> 0 < bar.part.units <= bar.whole.units
            &&& buy_bar matches Some(bar) ==> 0 < bar.part.units <= bar.whole.units
        },
{
    law_maxima(rows);
}

/// Where there are bids, the best of them stands right below the spread.
pub proof fn law_best_bid_row(
    ladder: Ladder,
    grid: PriceGrid,
    first: i32,
    last: i32,
    idx: Option<i32>,
)
    requires
        ladder.wf(),
        ladder.is_grid(Some(grid)),
        best(ladder.bids.orders@, Side::Bid) is Some,
        first <= 1 <= last,
        ladder.rows_fit(grid, first as int, last as int),
        is_best_row(
            ladder.screen(grid, first as int, last as int),
            Side::Bid,
            best(ladder.bids.orders@, Side::Bid),
            idx,
        ),
    ensures
        idx == Some(1i32),
{
    let rows = ladder.screen(grid, first as int, last as int);
    let price = best(ladder.bids.orders@, Side::Bid);
    assert(grid.wf());
    assert(grid.row_price(1) == grid.best_bid.units);
    assert(is_row_of(rows[1 - first].row, Side::Bid, price));
    assert forall|j: int|
        0 <= j < rows.len() && is_row_of((#[trigger] rows[j]).row, Side::Bid, price) implies j == 1
        - first by {
        let i = first + j;
        assert(i != 0 ==> fits(grid.row_price(i)));
        if i > 1 {
            law_rows_descend(grid, 1, i);
        }
    }
    assert(rows[1 - first].idx == 1);
}

/// Whether a row of the original view and a row of a volume profile view agree in what
/// stands left of the trades: price, side, order bar and order text, or the spread.
pub open spec fn same_left_side(a: Cell, b: VpCell) -> bool {
    match (a, b) {
        (
            Cell::Level { price: p, is_bid: s, order_bar: o, texts: t, .. },
            VpCell::Level { price: q, is_bid: z, order_bar: w, order_text: u, .. },
        ) => {
            &&& p == q
            &&& s == z
            &&& o == w
            &&& u == match t {
                Some(texts) => Some(texts.order),
                None => None,
            }
        },
        (Cell::Spread { spread: p }, VpCell::Spread { spread: q }) => p == q,
        (Cell::Divider, VpCell::Divider) => true,
        _ => false,
    }
}

/// The left side of the volume profile views, order book and price column, is that of
/// the original view: row by row they agree, and the spread row that interrupts the
/// dividers beside the price column is the same.
pub proof fn law_left_side_is_original(
    ladder: Ladder,
    grid: PriceGrid,
    first: int,
    last: int,
    stacked: bool,
    original: OriginalPlan,
    profile: VpPlan,
)
    requires
        original.cells@ == ladder.original_cells(grid, first, last),
        original.spread_row == ladder.spread_row_at(first, last),
        profile.cells@ == ladder.vp_cells(grid, first, last, stacked),
        profile.spread_row == ladder.spread_row_at(first, last),
    ensures
        original.cells@.len() == profile.cells@.len(),
        forall|j: int|
            0 <= j < original.cells@.len() ==> (#[trigger] original.cells@[j]).0
                == profile.cells@[j].0 && same_left_side(
                original.cells@[j].1,
                profile.cells@[j].1,
            ),
        original.spread_row == profile.spread_row,
{
}

/// What a level of the original view shows, ask or bid: its own price, and a bar for each
/// of its own order, sold and bought quantity that is positive, if the largest such
/// quantity is, of that part of it. Its texts are its own three quantities, and are there
/// exactly if they are wanted.
pub proof fn law_level_shows_its_quantities(ladder: Ladder, row: VisibleRow, maxima: Maxima)
    requires
        row.row is Ask || row.row is Bid,
    ensures
        ({
            let (own_price, qty) = match row.row {
                DomRow::Ask { price, qty } => (price, qty),
                DomRow::Bid { price, qty } => (price, qty),
                _ => arbitrary(),
            };
            let most = maxima.vis_max_order_qty;
            let most_traded = maxima.vis_max_trade_qty;
            ladder.cell_of(row, maxima) matches Cell::Level {
                price,
                is_bid,
                order_bar,
                sell_bar,
                buy_bar,
                texts,
            } && {
                &&& price == own_price
                &&& is_bid == (row.row is Bid)
                &&& order_bar is Some <==> qty.units > 0 && most.units > 0
                &&& order_bar matches Some(bar) ==> bar.part == qty && bar.whole == most
                &&& sell_bar is Some <==> row.sell_t.units > 0 && most_traded.units > 0
                &&& sell_bar matches Some(bar) ==> bar.part == row.sell_t && bar.whole
                    == most_traded
                &&& buy_bar is Some <==> row.buy_t.units > 0 && most_traded.units > 0
                &&& buy_bar matches Some(bar) ==> bar.part == row.buy_t && bar.whole == most_traded
                &&& texts is Some <==> ladder.config.show_trade_text
                &&& texts matches Some(t) ==> t.order == qty && t.sell == row.sell_t && t.buy
                    == row.buy_t
            }
        }),
{
}

/// An ask and a bid with the same quantities show the same bars and texts, in each view.
pub proof fn law_sides_look_alike(
    ladder: Ladder,
    ask: VisibleRow,
    bid: VisibleRow,
    maxima: Maxima,
    max: Qty,
    stacked: bool,
)
    requires
        ask.row matches DomRow::Ask { qty: p, .. } && bid.row matches DomRow::Bid { qty: q, .. }
            && p == q,
        ask.buy_t == bid.buy_t,
        ask.sell_t == bid.sell_t,
    ensures
        match (ladder.cell_of(ask, maxima), ladder.cell_of(bid, maxima)) {
            (
                Cell::Level { order_bar: a, sell_bar: b, buy_bar: c, texts: d, is_bid: x, .. },
                Cell::Level { order_bar: e, sell_bar: f, buy_bar: g, texts: h, is_bid: y, .. },
            ) => a == e && b == f && c == g && d == h && !x && y,
            _ => false,
        },
        match (
            ladder.vp_cell_of(ask, maxima, max, stacked),
            ladder.vp_cell_of(bid, maxima, max, stacked),
        ) {
            (
                VpCell::Level { order_bar: a, order_text: b, bars: c, label: d, is_bid: x, .. },
                VpCell::Level { order_bar: e, order_text: f, bars: g, label: h, is_bid: y, .. },
            ) => a == e && b == f && c == g && d == h && !x && y,
            _ => false,
        },
{
}

/// The rows between asks and bids: a divider stays one, and the spread row shows the
/// spread, rounded to the nearest multiple of the smallest price increment, if both sides
/// have a best price.
pub proof fn law_middle_row_cells(
    ladder: Ladder,
    row: VisibleRow,
    maxima: Maxima,
    max: Qty,
    stacked: bool,
)
    requires
        ladder.spread_fits(),
    ensures
        row.row is CenterDivider ==> ladder.cell_of(row, maxima) is Divider && ladder.vp_cell_of(
            row,
            maxima,
            max,
            stacked,
        ) is Divider,
        row.row is Spread ==> {
            let tick = ladder.ticker_info.min_ticksize.units as int;
            &&& ladder.cell_of(row, maxima) matches Cell::Spread { spread } && match (
                spread,
                ladder.raw_price_spread,
            ) {
                (Some(p), Some(raw)) => p.units as int % tick == 0 && -tick <= 2 * (raw.units
                    - p.units) < tick,
                (None, None) => true,
                _ => false,
            }
            &&& ladder.vp_cell_of(row, maxima, max, stacked) matches VpCell::Spread { spread }
                && match (spread, ladder.raw_price_spread) {
                (Some(p), Some(raw)) => p.units as int % tick == 0 && -tick <= 2 * (raw.units
                    - p.units) < tick,
                (None, None) => true,
                _ => false,
            }
        },
{
    if let Some(raw) = ladder.raw_price_spread {
        law_nearest_in_plain_terms(
            raw.units as int,
            ladder.ticker_info.min_ticksize.units as int,
        );
    }
}

/// The label of a row, for quantities that are not negative: with texts on and something
/// traded on the screen, a row has one exactly if something was traded on it, and what
/// the label says, with its sign, is bought less sold quantity.
pub proof fn law_label_is_the_difference(buy: Qty, sell: Qty, max: Qty, show_text: bool)
    requires
        0 <= buy.units,
        0 <= sell.units,
    ensures
        delta_label_of(buy, sell, max, show_text) is Some <==> show_text && max.units > 0
            && buy.units + sell.units > 0,
        delta_label_of(buy, sell, max, show_text) matches Some(label) ==> {
            &&& label.qty.units >= 0
            &&& label.buys_prevail <==> buy.units >= sell.units
            &&& buy.units - sell.units == (if label.buys_prevail {
                label.qty.units as int
            } else {
                -label.qty.units
            })
        },
{
}

/// A row with a delta bar that is not empty has a label of the same sign and size, where
/// texts are on.
pub proof fn law_label_matches_the_bar(buy: Qty, sell: Qty, max: Qty)
    requires
        0 <= buy.units <= max.units,
        0 <= sell.units <= max.units,
    ensures
        vp_bars_of(buy, sell, max, false) matches VpBars::Delta { part, buys_prevail, .. } ==> (
        part.units != 0 ==> (delta_label_of(buy, sell, max, true) matches Some(label) && label.qty
            == part && label.buys_prevail == buys_prevail)),
{
}

/// The bars of a volume profile, for quantities that are not negative and not above the
/// largest: without any trade on the screen there are none. Stacked, the bar of what was
/// sold shows all of it, and that of what was bought shows all of it or fills what is left.
/// Otherwise the bar shows the whole difference, for the side that prevails.
pub proof fn law_profile_bars(buy: Qty, sell: Qty, max: Qty, stacked: bool)
    requires
        0 <= buy.units <= max.units,
        0 <= sell.units <= max.units,
    ensures
        match vp_bars_of(buy, sell, max, stacked) {
            VpBars::Nothing => max.units == 0,
            VpBars::Stacked { ask_part, bid_part, whole } => {
                &&& stacked && max.units > 0
                &&& whole == max
                &&& ask_part == sell
                &&& 0 <= bid_part.units <= buy.units
                &&& ask_part.units + bid_part.units <= whole.units
                &&& bid_part == buy || ask_part.units + bid_part.units == whole.units
            },
            VpBars::Delta { part, whole, buys_prevail } => {
                &&& !stacked && max.units > 0
                &&& whole == max
                &&& part.units >= 0
                &&& buys_prevail <==> buy.units >= sell.units
                &&& buy.units - sell.units == (if buys_prevail {
                    part.units as int
                } else {
                    -part.units
                })
            },
        },
{
}

/// What a level of a volume profile view shows, ask or bid: its own price and orders as
/// the original view does, and bars and label of what was bought and sold on its own row.
pub proof fn law_profile_level_shows_its_quantities(
    ladder: Ladder,
    row: VisibleRow,
    maxima: Maxima,
    max: Qty,
    stacked: bool,
)
    requires
        row.row is Ask || row.row is Bid,
        0 <= row.buy_t.units <= max.units,
        0 <= row.sell_t.units <= max.units,
    ensures
        ({
            let (own_price, qty) = match row.row {
                DomRow::Ask { price, qty } => (price, qty),
                DomRow::Bid { price, qty } => (price, qty),
                _ => arbitrary(),
            };
            let most = maxima.vis_max_order_qty;
            let delta = row.buy_t.units - row.sell_t.units;
            ladder.vp_cell_of(row, maxima, max, stacked) matches VpCell::Level {
                price,
                is_bid,
                order_bar,
                order_text,
                bars,
                label,
            } && {
                &&& price == own_price
                &&& is_bid == (row.row is Bid)
                &&& order_bar is Some <==> qty.units > 0 && most.units > 0
                &&& order_bar matches Some(bar) ==> bar.part == qty && bar.whole == most
                &&& order_text == (if ladder.config.show_trade_text {
                    Some(qty)
                } else {
                    None
                })
                &&& bars is Nothing <==> max.units == 0
                &&& bars is Stacked <==> max.units > 0 && stacked
                &&& bars matches VpBars::Stacked { ask_part, bid_part, whole } ==> {
                    &&& whole == max
                    &&& ask_part == row.sell_t
                    &&& bid_part == row.buy_t || ask_part.units + bid_part.units == whole.units
                }
                &&& bars matches VpBars::Delta { part, whole, buys_prevail } ==> whole == max
                    && part.units >= 0 && delta == (if buys_prevail {
                    part.units as int
                } else {
                    -part.units
                })
                &&& label is Some <==> ladder.config.show_trade_text && max.units > 0
                    && row.buy_t.units + row.sell_t.units > 0
                &&& label matches Some(l) ==> l.qty.units >= 0 && delta == (if l.buys_prevail {
                    l.qty.units as int
                } else {
                    -l.qty.units
                })
            }
        }),
{
    law_profile_bars(row.buy_t, row.sell_t, max, stacked);
    law_label_is_the_difference(row.buy_t, row.sell_t, max, ladder.config.show_trade_text);
}

/// Each view has one cell for each row of the screen, with its number, and measures all of
/// them by the same largest quantities: those that no row on the screen exceeds and that
/// are zero or shown on one.
pub proof fn law_views_measure_by_the_screen(
    ladder: Ladder,
    grid: PriceGrid,
    first: int,
    last: int,
    stacked: bool,
    j: int,
)
    requires
        0 <= j < ladder.screen(grid, first, last).len(),
    ensures
        ({
            let rows = ladder.screen(grid, first, last);
            let original = ladder.original_cells(grid, first, last);
            let profile = ladder.vp_cells(grid, first, last, stacked);
            let maxima = maxima_on(rows);
            &&& original.len() == rows.len() && profile.len() == rows.len()
            &&& original[j] == (rows[j].idx, ladder.cell_of(rows[j], maxima))
            &&& profile[j] == (
                rows[j].idx,
                ladder.vp_cell_of(rows[j], maxima, maxima.vis_max_trade_qty, stacked),
            )
            &&& rows[j].buy_t.units <= maxima.vis_max_trade_qty.units
            &&& rows[j].sell_t.units <= maxima.vis_max_trade_qty.units
            &&& match rows[j].row {
                DomRow::Ask { qty, .. } => qty.units <= maxima.vis_max_order_qty.units,
                DomRow::Bid { qty, .. } => qty.units <= maxima.vis_max_order_qty.units,
                _ => true,
            }
            &&& maxima.vis_max_trade_qty.units == 0 || exists|i: int|
                0 <= i < rows.len() && ((#[trigger] rows[i]).buy_t == maxima.vis_max_trade_qty
                    || rows[i].sell_t == maxima.vis_max_trade_qty)
            &&& maxima.vis_max_order_qty.units == 0 || exists|i: int|
                0 <= i < rows.len() && match (#[trigger] rows[i]).row {
                    DomRow::Ask { qty, .. } => qty == maxima.vis_max_order_qty,
                    DomRow::Bid { qty, .. } => qty == maxima.vis_max_order_qty,
                    _ => false,
                }
        }),
{
    let rows = ladder.screen(grid, first, last);
    law_maxima_in_plain_terms(rows);
    if max_trade_units(rows) != 0 {
        let i = choose|i: int|
            0 <= i < rows.len() && ((#[trigger] rows[i]).buy_t.units == max_trade_units(rows)
                || rows[i].sell_t.units == max_trade_units(rows));
        assert(rows[i].buy_t == maxima_on(rows).vis_max_trade_qty || rows[i].sell_t == maxima_on(
            rows,
        ).vis_max_trade_qty);
    }
    if max_order_units(rows) != 0 {
        let i = choose|i: int|
            0 <= i < rows.len() && match (#[trigger] rows[i]).row {
                DomRow::Ask { qty, .. } | DomRow::Bid { qty, .. } => qty.units == max_order_units(
                    rows,
                ),
                _ => false,
            };
        assert(match rows[i].row {
            DomRow::Ask { qty, .. } => qty == maxima_on(rows).vis_max_order_qty,
            DomRow::Bid { qty, .. } => qty == maxima_on(rows).vis_max_order_qty,
            _ => false,
        });
    }
}

/// The row of a best price is one on the screen, of that side and with that price; and if
/// there is none, no row on the screen is.
pub proof fn law_best_row_has_the_best_price(
    rows: Seq<VisibleRow>,
    side: Side,
    best_price: Option<Price>,
    idx: Option<i32>,
)
    requires
        is_best_row(rows, side, best_price, idx),
    ensures
        match idx {
            Some(i) => exists|j: int|
                0 <= j < rows.len() && (#[trigger] rows[j]).idx == i && match rows[j].row {
                    DomRow::Ask { price, .. } => side == Side::Ask && best_price == Some(price),
                    DomRow::Bid { price, .. } => side == Side::Bid && best_price == Some(price),
                    _ => false,
                },
            None => forall|j: int|
                0 <= j < rows.len() ==> match (#[trigger] rows[j]).row {
                    DomRow::Ask { price, .. } => side == Side::Bid || best_price != Some(price),
                    DomRow::Bid { price, .. } => side == Side::Ask || best_price != Some(price),
                    _ => true,
                },
        },
{
    if let Some(i) = idx {
        let j = choose|j: int|
            0 <= j < rows.len() && (#[trigger] rows[j]).idx == i && is_row_of(
                rows[j].row,
                side,
                best_price,
            ) && forall|k: int|
                j < k < rows.len() ==> !is_row_of((#[trigger] rows[k]).row, side, best_price);
        assert(rows[j].idx == i);
    } else {
        assert forall|j: int| 0 <= j < rows.len() implies match (#[trigger] rows[j]).row {
            DomRow::Ask { price, .. } => side == Side::Bid || best_price != Some(price),
            DomRow::Bid { price, .. } => side == Side::Ask || best_price != Some(price),
            _ => true,
        } by {
            assert(!is_row_of(rows[j].row, side, best_price));
        }
    }
}

/// There is a spread row, the middle one, exactly if it is on the screen, the spread is to
/// be shown there, and both sides have a best price.
pub proof fn law_spread_row(ladder: Ladder, first: int, last: int)
    ensures
        ladder.spread_row_at(first, last) == (if first <= 0 && 0 <= last
            && ladder.config.show_spread && ladder.ticker_info.depth_client_aggr
            && ladder.raw_price_spread is Some {
            Some(0i32)
        } else {
            None
        }),
{
}

/// The trail of a chased price. Without a chase there is none. Its end is the row whose
/// price is the last multiple of the tick that is not above the price it has reached, for
/// bids, or the first that is not below it, for asks; its start likewise. This is for a
/// grid on multiples of the tick, as far as row numbers reach.
pub proof fn law_trail_follows_the_price(
    grid: PriceGrid,
    start: Price,
    end: Price,
    is_bid: bool,
    best_offer: Option<i32>,
)
    requires
        grid.wf(),
        grid.best_bid.units as int % grid.tick.units as int == 0,
        segment_fits(grid, Some((start, end)), is_bid),
        grid.rows_away(side_price(start, is_bid, grid.tick)) matches Some(n) && n <= i32::MAX,
        grid.rows_away(side_price(end, is_bid, grid.tick)) matches Some(n) && n <= i32::MAX,
    ensures
        trail_of(grid, None, is_bid, best_offer) is None,
        trail_of(grid, Some((start, end)), is_bid, best_offer) matches Some(trail) && {
            let tick = grid.tick.units as int;
            &&& trail.end != 0
            &&& trail.start matches Some(row) && row != 0 && (if is_bid {
                grid.row_price(row as int) <= start.units < grid.row_price(row as int) + tick
            } else {
                grid.row_price(row as int) - tick < start.units <= grid.row_price(row as int)
            })
            &&& if is_bid {
                grid.row_price(trail.end as int) <= end.units < grid.row_price(trail.end as int)
                    + tick
            } else {
                grid.row_price(trail.end as int) - tick < end.units <= grid.row_price(
                    trail.end as int,
                )
            }
        },
{
    lemma_chased_row(grid, start, is_bid);
    lemma_chased_row(grid, end, is_bid);
}

proof fn lemma_chased_row(grid: PriceGrid, price: Price, is_bid: bool)
    requires
        grid.wf(),
        grid.best_bid.units as int % grid.tick.units as int == 0,
        chased_fits(grid, price, is_bid),
        grid.rows_away(side_price(price, is_bid, grid.tick)) matches Some(n) && n <= i32::MAX,
    ensures
        grid.row_of(side_price(price, is_bid, grid.tick)) matches Some(row) && row != 0 && (
        if is_bid {
            grid.row_price(row as int) <= price.units < grid.row_price(row as int)
                + grid.tick.units
        } else {
            grid.row_price(row as int) - grid.tick.units < price.units <= grid.row_price(
                row as int,
            )
        }),
{
    let s = grid.tick.units as int;
    let bin = side_price(price, is_bid, grid.tick);
    let b = grid.best_bid.units as int;
    law_side_in_plain_terms(price.units as int, s);
    law_row_brackets(grid, bin);
    lemma_on_grid_apart(b, bin.units as int, s);
    let row = grid.row_of(bin)->0 as int;
    if row > 0 {
        lemma_shift_on_grid(b, row - 1, s);
    } else if row < 0 {
        lemma_shift_on_grid(b, 1, s);
        lemma_shift_on_grid(b + s, -1 - row, s);
    }
    if row != 0 {
        lemma_on_grid_apart(grid.row_price(row), bin.units as int, s);
    }
}

/// Where the price that a chase has reached is on no row, the trail ends on the row of the
/// best offer; without one there is no trail.
pub proof fn law_trail_ends_at_the_best_offer(
    grid: PriceGrid,
    start: Price,
    end: Price,
    is_bid: bool,
    best_offer: Option<i32>,
)
    requires
        grid.row_of(side_price(end, is_bid, grid.tick)) is None,
    ensures
        match (trail_of(grid, Some((start, end)), is_bid, best_offer), best_offer) {
            (Some(trail), Some(row)) => trail.end == row,
            (None, None) => true,
            _ => false,
        },
{
}

/// The trails of the original view. Where the chase tracker is hidden there are none, nor
/// is there one without a chase. That of the bid runs between bins at or below its prices
/// and falls back to the row of the best ask, that of the ask between bins at or above its
/// prices and falls back to the row of the best bid.
pub proof fn law_trails_of_the_original_view(
    ladder: Ladder,
    plan: OriginalPlan,
    grid: PriceGrid,
    first: int,
    last: int,
    bid_segment: Option<(Price, Price)>,
    ask_segment: Option<(Price, Price)>,
)
    requires
        ladder.is_original_plan(plan, grid, first, last, bid_segment, ask_segment),
    ensures
        !ladder.config.show_chase_tracker ==> plan.bid_trail is None && plan.ask_trail is None,
        bid_segment is None ==> plan.bid_trail is None,
        ask_segment is None ==> plan.ask_trail is None,
        ladder.config.show_chase_tracker ==> {
            &&& bid_segment matches Some((start, end)) ==> {
                let bin = Price {
                    units: side_multiple(true, end.units as int, grid.tick.units as int) as i64,
                };
                let origin = Price {
                    units: side_multiple(true, start.units as int, grid.tick.units as int) as i64,
                };
                &&& plan.bid_trail matches Some(trail) ==> trail.start == grid.row_of(origin)
                &&& match grid.row_of(bin) {
                    Some(row) => plan.bid_trail matches Some(trail) && trail.end == row,
                    None => match (plan.bid_trail, plan.best_ask_row) {
                        (Some(trail), Some(row)) => trail.end == row,
                        (None, None) => true,
                        _ => false,
                    },
                }
            }
            &&& ask_segment matches Some((start, end)) ==> {
                let bin = Price {
                    units: side_multiple(false, end.units as int, grid.tick.units as int) as i64,
                };
                let origin = Price {
                    units: side_multiple(false, start.units as int, grid.tick.units as int) as i64,
                };
                &&& plan.ask_trail matches Some(trail) ==> trail.start == grid.row_of(origin)
                &&& match grid.row_of(bin) {
                    Some(row) => plan.ask_trail matches Some(trail) && trail.end == row,
                    None => match (plan.ask_trail, plan.best_bid_row) {
                        (Some(trail), Some(row)) => trail.end == row,
                        (None, None) => true,
                        _ => false,
                    },
                }
            }
        },
{
}

/// The best rows of the original view are on the screen, of the right side, and no order of
/// that side is better.
pub proof fn law_best_rows_of_the_original_view(
    ladder: Ladder,
    plan: OriginalPlan,
    grid: PriceGrid,
    first: int,
    last: int,
    bid_segment: Option<(Price, Price)>,
    ask_segment: Option<(Price, Price)>,
    k: i64,
)
    requires
        ladder.is_original_plan(plan, grid, first, last, bid_segment, ask_segment),
    ensures
        ({
            let rows = ladder.screen(grid, first, last);
            &&& plan.best_bid_row matches Some(i) ==> exists|j: int|
                0 <= j < rows.len() && (#[trigger] rows[j]).idx == i && (rows[j].row
                    matches DomRow::Bid { price, .. } && ladder.bids.orders@.contains_key(
                    price.units,
                ) && (ladder.bids.orders@.contains_key(k) ==> k <= price.units))
            &&& plan.best_ask_row matches Some(i) ==> exists|j: int|
                0 <= j < rows.len() && (#[trigger] rows[j]).idx == i && (rows[j].row
                    matches DomRow::Ask { price, .. } && ladder.asks.orders@.contains_key(
                    price.units,
                ) && (ladder.asks.orders@.contains_key(k) ==> price.units <= k))
        }),
{
    let rows = ladder.screen(grid, first, last);
    let bid = best(ladder.bids.orders@, Side::Bid);
    let ask = best(ladder.asks.orders@, Side::Ask);
    crate::book::law_best_price(ladder.bids.orders@, Side::Bid, k);
    crate::book::law_best_price(ladder.asks.orders@, Side::Ask, k);
    if let Some(i) = plan.best_bid_row {
        let j = choose|j: int|
            0 <= j < rows.len() && (#[trigger] rows[j]).idx == i && is_row_of(
                rows[j].row,
                Side::Bid,
                bid,
            ) && forall|q: int|
                j < q < rows.len() ==> !is_row_of((#[trigger] rows[q]).row, Side::Bid, bid);
        assert(rows[j].idx == i);
    }
    if let Some(i) = plan.best_ask_row {
        let j = choose|j: int|
            0 <= j < rows.len() && (#[trigger] rows[j]).idx == i && is_row_of(
                rows[j].row,
                Side::Ask,
                ask,
            ) && forall|q: int|
                j < q < rows.len() ==> !is_row_of((#[trigger] rows[q]).row, Side::Ask, ask);
        assert(rows[j].idx == i);
    }
}

/// The spread can be rounded if the smallest price increment is positive and the spread is
/// not within one increment of the largest and smallest number.
pub proof fn law_moderate_spread_fits(ladder: Ladder)
    requires
        ladder.ticker_info.min_ticksize.units > 0,
        ladder.raw_price_spread matches Some(p) ==> {
            let tick = ladder.ticker_info.min_ticksize.units as int;
            i64::MIN + tick <= p.units <= i64::MAX - tick
        },
    ensures
        ladder.spread_fits(),
{
    if let Some(p) = ladder.raw_price_spread {
        law_nearest_in_plain_terms(
            p.units as int,
            ladder.ticker_info.min_ticksize.units as int,
        );
    }
}

} // verus!
