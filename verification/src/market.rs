//! What the market sends: trades and price bars.

use crate::units::{Price, Qty};
use vstd::prelude::*;

verus! {

/// One trade.
#[derive(Clone, Copy, Debug, PartialEq, Eq, Structural)]
pub struct Trade {
    /// Milliseconds since the epoch.
    pub time: u64,
    /// Whether the seller was the aggressor.
    pub is_sell: bool,
    pub price: Price,
    pub qty: Qty,
}

/// The open, high, low and close price of one bar, and the volume it traded.
#[derive(Clone, Copy, Debug, PartialEq, Eq, Structural)]
pub struct Kline {
    /// Milliseconds since the epoch, at the start of the bar.
    pub time: u64,
    pub open: Price,
    pub high: Price,
    pub low: Price,
    pub close: Price,
    pub volume: Qty,
}

} // verus!
