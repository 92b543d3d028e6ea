//! Order-flow charting logic: footprints, cumulative volume delta and the
//! price ladder, with their behaviour stated in contracts.

pub mod bins;
pub mod book;
pub mod cvd;
pub mod footprint;
pub mod grid;
pub mod kline;
pub mod ladder;
pub mod market;
pub mod ordered;
pub mod panel;
pub mod rows;
pub mod sums;
pub mod text;
pub mod trades;
pub mod units;
