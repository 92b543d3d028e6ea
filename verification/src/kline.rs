//! Price bars with their footprints, and how they are charted.

use crate::footprint::{
    between, bin_has_room, bins_with, is_first_trade_t, is_last_trade_t, is_max_cluster, is_poc,
    nearest_bin, totals_fit, ClusterKind, GroupedTrades, KlineTrades, NPoc, PointOfControl,
};
use crate::market::{Kline, Trade};
use crate::text::{decimal, decimal_digits};
use crate::units::{fits, Price, PriceStep, Qty};
use vstd::prelude::*;

verus! {

impl ClusterKind {
    pub const ALL: [ClusterKind; 3] = [
        ClusterKind::BidAsk,
        ClusterKind::VolumeProfile,
        ClusterKind::DeltaProfile,
    ];

    /// How the choice is named to the user.
    pub fn label(&self) -> (r: String)
        ensures
            r@ == match *self {
                ClusterKind::BidAsk => "Bid/Ask"@,
                ClusterKind::VolumeProfile => "Volume Profile"@,
                ClusterKind::DeltaProfile => "Delta Profile"@,
            },
    {
        match self {
            ClusterKind::BidAsk => "Bid/Ask".to_owned(),
            ClusterKind::VolumeProfile => "Volume Profile".to_owned(),
            ClusterKind::DeltaProfile => "Delta Profile".to_owned(),
        }
    }
}

/// Configuration for the CVD indicator, persisted as part of the kline
/// visual config so that settings survive across sessions.
#[derive(Debug, Copy, Clone, PartialEq, Eq, Structural)]
pub struct CvdConfig {
    /// When `true`, uses EMA-ratio mode: CVD = EMA(buy_qty) / EMA(sell_qty).
    /// Oscillates around 1.0 - values > 1 mean buy pressure dominates,
    /// values < 1 mean sell pressure dominates.
    /// When `false`, uses classic cumulative delta (unbounded).
    pub ema_mode: bool,
    /// EMA period used in ratio mode. Ignored in classic mode.
    pub ema_period: u32,
}

pub fn default_cvd_ema_period() -> (r: u32)
    ensures
        r == 14,
{
    14
}

impl Default for CvdConfig {
    fn default() -> (r: CvdConfig)
        ensures
            r == (CvdConfig { ema_mode: false, ema_period: 14 }),
    {
        CvdConfig { ema_mode: false, ema_period: default_cvd_ema_period() }
    }
}

/// What a kline chart shows beside its bars.
#[derive(Debug, Copy, Clone, PartialEq, Eq, Structural)]
pub struct Config {
    pub volume_profile: Option<VolumeProfileConfig>,
    pub show_crosshair: bool,
    pub cvd: CvdConfig,
}

pub fn default_true() -> (r: bool)
    ensures
        r,
{
    true
}

impl Default for Config {
    fn default() -> (r: Config)
        ensures
            r == (Config {
                volume_profile: None,
                show_crosshair: true,
                cvd: CvdConfig { ema_mode: false, ema_period: 14 },
            }),
    {
        Config { volume_profile: None, show_crosshair: default_true(), cvd: CvdConfig::default() }
    }
}

/// Which bars a volume profile covers.
#[derive(Debug, Clone, Copy, PartialEq, Eq, Structural)]
pub enum VolumeProfileRange {
    Session,
    Lookback { bars: usize },
}

impl VolumeProfileRange {
    /// The choices that are offered.
    pub fn all() -> (r: [VolumeProfileRange; 5])
        ensures
            r@ == seq![
                VolumeProfileRange::Session,
                VolumeProfileRange::Lookback { bars: 50 },
                VolumeProfileRange::Lookback { bars: 100 },
                VolumeProfileRange::Lookback { bars: 200 },
                VolumeProfileRange::Lookback { bars: 500 },
            ],
    {
        [
            VolumeProfileRange::Session,
            VolumeProfileRange::Lookback { bars: 50 },
            VolumeProfileRange::Lookback { bars: 100 },
            VolumeProfileRange::Lookback { bars: 200 },
            VolumeProfileRange::Lookback { bars: 500 },
        ]
    }

    /// How the choice is named to the user.
    pub fn label(&self) -> (r: String)
        ensures
            r@ == match *self {
                VolumeProfileRange::Session => "Session"@,
                VolumeProfileRange::Lookback { bars } => "Last "@ + decimal_digits(bars as nat)
                    + " bars"@,
            },
    {
        match self {
            VolumeProfileRange::Session => "Session".to_owned(),
            VolumeProfileRange::Lookback { bars } => {
                let mut text = "Last ".to_owned();
                text.append(decimal(*bars as u64).as_str());
                text.append(" bars");
                text
            },
        }
    }
}

/// What the bars of a volume profile show.
#[derive(Debug, Clone, Copy, PartialEq, Eq, Structural)]
pub enum VolumeProfileDisplay {
    BidAsk,
    Delta,
    Total,
}

impl VolumeProfileDisplay {
    pub const ALL: [VolumeProfileDisplay; 3] = [
        VolumeProfileDisplay::BidAsk,
        VolumeProfileDisplay::Delta,
        VolumeProfileDisplay::Total,
    ];

    /// How the choice is named to the user.
    pub fn label(&self) -> (r: String)
        ensures
            r@ == match *self {
                VolumeProfileDisplay::BidAsk => "Bid / Ask"@,
                VolumeProfileDisplay::Delta => "Delta"@,
                VolumeProfileDisplay::Total => "Total"@,
            },
    {
        match self {
            VolumeProfileDisplay::BidAsk => "Bid / Ask".to_owned(),
            VolumeProfileDisplay::Delta => "Delta".to_owned(),
            VolumeProfileDisplay::Total => "Total".to_owned(),
        }
    }
}

/// What the bars of a volume profile are scaled against.
#[derive(Debug, Clone, Copy, PartialEq, Eq, Structural)]
pub enum VolumeProfileScaling {
    Independent,
    VisibleRange,
}

impl VolumeProfileScaling {
    pub const ALL: [VolumeProfileScaling; 2] = [
        VolumeProfileScaling::Independent,
        VolumeProfileScaling::VisibleRange,
    ];

    /// How the choice is named to the user.
    pub fn label(&self) -> (r: String)
        ensures
            r@ == match *self {
                VolumeProfileScaling::Independent => "Independent"@,
                VolumeProfileScaling::VisibleRange => "Visible Range"@,
            },
    {
        match self {
            VolumeProfileScaling::Independent => "Independent".to_owned(),
            VolumeProfileScaling::VisibleRange => "Visible Range".to_owned(),
        }
    }
}

/// How many minimum tick increments are grouped into one profile bar.
#[derive(Debug, Clone, Copy, PartialEq, Eq, Structural)]
pub enum TickGrouping {
    T1,
    T2,
    T5,
    T10,
    T20,
    T50,
}

impl TickGrouping {
    pub const ALL: [TickGrouping; 6] = [
        TickGrouping::T1,
        TickGrouping::T2,
        TickGrouping::T5,
        TickGrouping::T10,
        TickGrouping::T20,
        TickGrouping::T50,
    ];

    /// The number of ticks in one profile bar.
    pub open spec fn ticks(self) -> nat {
        match self {
            TickGrouping::T1 => 1,
            TickGrouping::T2 => 2,
            TickGrouping::T5 => 5,
            TickGrouping::T10 => 10,
            TickGrouping::T20 => 20,
            TickGrouping::T50 => 50,
        }
    }

    pub fn multiplier(self) -> (r: u32)
        ensures
            r == self.ticks(),
    {
        match self {
            TickGrouping::T1 => 1,
            TickGrouping::T2 => 2,
            TickGrouping::T5 => 5,
            TickGrouping::T10 => 10,
            TickGrouping::T20 => 20,
            TickGrouping::T50 => 50,
        }
    }

    /// How the choice is named to the user.
    pub fn label(&self) -> (r: String)
        ensures
            r@ == decimal_digits(self.ticks()) + " tick(s)"@,
    {
        let mut text = decimal(self.multiplier() as u64);
        text.append(" tick(s)");
        text
    }
}

/// How a volume profile is drawn.
#[derive(Debug, Clone, Copy, PartialEq, Eq, Structural)]
pub struct VolumeProfileConfig {
    pub range: VolumeProfileRange,
    pub display: VolumeProfileDisplay,
    pub scaling: VolumeProfileScaling,
    pub tick_grouping: TickGrouping,
}

impl Default for VolumeProfileConfig {
    fn default() -> (r: VolumeProfileConfig)
        ensures
            r == (VolumeProfileConfig {
                range: VolumeProfileRange::Session,
                display: VolumeProfileDisplay::BidAsk,
                scaling: VolumeProfileScaling::Independent,
                tick_grouping: TickGrouping::T5,
            }),
    {
        VolumeProfileConfig {
            range: VolumeProfileRange::Session,
            display: VolumeProfileDisplay::BidAsk,
            scaling: VolumeProfileScaling::Independent,
            tick_grouping: TickGrouping::T5,
        }
    }
}

/// What the cells of a footprint are scaled against. `W` is the number type of
/// the hybrid weight, which nothing here computes with.
#[derive(Debug, Clone, Copy, PartialEq)]
pub enum ClusterScaling<W> {
    /// Scale based on the maximum quantity in the visible range.
    VisibleRange,
    /// Blend global VisibleRange and per-cluster Individual using a weight in [0.0, 1.0].
    /// weight = fraction of global contribution (1.0 == all-global, 0.0 == all-individual).
    Hybrid { weight: W },
    /// Scale based only on the maximum quantity inside the datapoint (per-candle).
    Datapoint,
}

impl<W> Default for ClusterScaling<W> {
    fn default() -> (r: ClusterScaling<W>)
        ensures
            r == ClusterScaling::<W>::VisibleRange,
    {
        ClusterScaling::VisibleRange
    }
}

impl<W> ClusterScaling<W> {
    /// The choices that are offered, with `weight` for the hybrid one.
    pub fn all(weight: W) -> (r: [ClusterScaling<W>; 3])
        ensures
            r@ == seq![
                ClusterScaling::VisibleRange,
                ClusterScaling::Hybrid { weight },
                ClusterScaling::Datapoint,
            ],
    {
        [
            ClusterScaling::VisibleRange,
            ClusterScaling::Hybrid { weight },
            ClusterScaling::Datapoint,
        ]
    }

    /// How the choice is named to the user, with the hybrid weight written as
    /// `weight`.
    pub fn label(&self, weight: &str) -> (r: String)
        ensures
            r@ == match *self {
                ClusterScaling::VisibleRange => "Visible Range"@,
                ClusterScaling::Hybrid { .. } => "Hybrid (weight: "@ + weight@ + ")"@,
                ClusterScaling::Datapoint => "Per-candle"@,
            },
    {
        match self {
            ClusterScaling::VisibleRange => "Visible Range".to_owned(),
            ClusterScaling::Hybrid { .. } => {
                let mut text = "Hybrid (weight: ".to_owned();
                text.append(weight);
                text.append(")");
                text
            },
            ClusterScaling::Datapoint => "Per-candle".to_owned(),
        }
    }
}

/// A study that is drawn over a footprint chart.
#[derive(Debug, Clone, Copy, PartialEq, Eq, Structural)]
pub enum FootprintStudy {
    NPoC { lookback: usize },
    Imbalance { threshold: usize, color_scale: Option<usize>, ignore_zeros: bool },
}

impl FootprintStudy {
    /// The studies that are offered, as they are set at first.
    pub fn all() -> (r: [FootprintStudy; 2])
        ensures
            r@ == seq![
                FootprintStudy::NPoC { lookback: 80 },
                FootprintStudy::Imbalance {
                    threshold: 200,
                    color_scale: Some(400),
                    ignore_zeros: true,
                },
            ],
    {
        [
            FootprintStudy::NPoC { lookback: 80 },
            FootprintStudy::Imbalance {
                threshold: 200,
                color_scale: Some(400),
                ignore_zeros: true,
            },
        ]
    }

    /// Whether both are the same study, however they are set.
    pub fn is_same_type(&self, other: &Self) -> (r: bool)
        ensures
            r == (self is NPoC <==> other is NPoC),
    {
        match (self, other) {
            (FootprintStudy::NPoC { .. }, FootprintStudy::NPoC { .. }) => true,
            (FootprintStudy::Imbalance { .. }, FootprintStudy::Imbalance { .. }) => true,
            _ => false,
        }
    }

    /// How the study is named to the user.
    pub fn label(&self) -> (r: String)
        ensures
            r@ == match *self {
                FootprintStudy::NPoC { .. } => "Naked Point of Control"@,
                FootprintStudy::Imbalance { .. } => "Imbalance"@,
            },
    {
        match self {
            FootprintStudy::NPoC { .. } => "Naked Point of Control".to_owned(),
            FootprintStudy::Imbalance { .. } => "Imbalance".to_owned(),
        }
    }
}

/// A number of thousandths: 1500 stands for one and a half.
#[derive(Debug, Clone, Copy, PartialEq, Eq, Structural)]
pub struct Thousandths(pub u32);

/// How the bars of a kline chart are drawn.
#[derive(Debug, Clone, PartialEq)]
pub enum KlineChartKind<W> {
    Candles,
    Footprint {
        clusters: ClusterKind,
        scaling: ClusterScaling<W>,
        studies: Vec<FootprintStudy>,
    },
}

impl<W> Default for KlineChartKind<W> {
    fn default() -> (r: KlineChartKind<W>)
        ensures
            r == KlineChartKind::<W>::Candles,
    {
        KlineChartKind::Candles
    }
}

impl<W> KlineChartKind<W> {
    fn pick(&self, footprint: u32, candles: u32) -> (r: Thousandths)
        ensures
            r.0 == (if self is Footprint { footprint } else { candles }),
    {
        match self {
            KlineChartKind::Footprint { .. } => Thousandths(footprint),
            KlineChartKind::Candles => Thousandths(candles),
        }
    }

    /// The smallest zoom factor.
    pub fn min_scaling(&self) -> (r: Thousandths)
        ensures
            r.0 == (if self is Footprint { 400int } else { 600int }),
    {
        self.pick(400, 600)
    }

    /// The largest zoom factor.
    pub fn max_scaling(&self) -> (r: Thousandths)
        ensures
            r.0 == (if self is Footprint { 1_200int } else { 2_500int }),
    {
        self.pick(1_200, 2_500)
    }

    /// The largest width of a bar, in pixels.
    pub fn max_cell_width(&self) -> (r: Thousandths)
        ensures
            r.0 == (if self is Footprint { 360_000int } else { 16_000int }),
    {
        self.pick(360_000, 16_000)
    }

    /// The smallest width of a bar, in pixels.
    pub fn min_cell_width(&self) -> (r: Thousandths)
        ensures
            r.0 == (if self is Footprint { 80_000int } else { 1_000int }),
    {
        self.pick(80_000, 1_000)
    }

    /// The largest height of a price bin, in pixels.
    pub fn max_cell_height(&self) -> (r: Thousandths)
        ensures
            r.0 == (if self is Footprint { 90_000int } else { 8_000int }),
    {
        self.pick(90_000, 8_000)
    }

    /// The smallest height of a price bin, in pixels.
    pub fn min_cell_height(&self) -> (r: Thousandths)
        ensures
            r.0 == (if self is Footprint { 1_000int } else { 1int }),
    {
        self.pick(1_000, 1)
    }

    /// The width of a bar before the user zooms, in pixels.
    pub fn default_cell_width(&self) -> (r: Thousandths)
        ensures
            r.0 == (if self is Footprint { 80_000int } else { 4_000int }),
    {
        self.pick(80_000, 4_000)
    }
}

/// A price bar with the trades that made it.
#[derive(Clone)]
pub struct KlineDataPoint {
    pub kline: Kline,
    pub footprint: KlineTrades,
}

impl KlineDataPoint {
    /// See [`KlineTrades::max_cluster_qty`].
    pub fn max_cluster_qty(&self, cluster_kind: ClusterKind, highest: Price, lowest: Price) -> (r:
        Qty)
        requires
            forall|k: i64| #[trigger]
                self.footprint.trades@.contains_key(k) && between(k, highest, lowest) ==> fits(
                    self.footprint.trades@[k].cluster(cluster_kind),
                ),
        ensures
            is_max_cluster(self.footprint.trades@, cluster_kind, highest, lowest, r),
    {
        self.footprint.max_cluster_qty(cluster_kind, highest, lowest)
    }

    /// Adds the trade to the bin nearest to its price.
    pub fn add_trade(&mut self, trade: &Trade, step: PriceStep)
        requires
            step.wf(),
            fits(nearest_bin(*trade, step)),
            bin_has_room(old(self).footprint.trades@, nearest_bin(*trade, step) as i64, *trade),
        ensures
            final(self).footprint.trades@ == bins_with(
                old(self).footprint.trades@,
                nearest_bin(*trade, step) as i64,
                *trade,
            ),
            final(self).footprint.poc == old(self).footprint.poc,
            final(self).kline == old(self).kline,
    {
        self.footprint.add_trade_to_nearest_bin(trade, step);
    }

    /// Whether [`KlineDataPoint::add_trade`] can hold bin and sums.
    pub fn can_add_trade(&self, trade: &Trade, step: PriceStep) -> (r: bool)
        requires
            step.wf(),
        ensures
            r == (fits(nearest_bin(*trade, step)) && bin_has_room(
                self.footprint.trades@,
                nearest_bin(*trade, step) as i64,
                *trade,
            )),
    {
        self.footprint.can_add_to_nearest_bin(trade, step)
    }

    pub fn poc_price(&self) -> (r: Option<Price>)
        ensures
            r == match self.footprint.poc {
                Some(poc) => Some(poc.price),
                None => None,
            },
    {
        self.footprint.poc_price()
    }

    pub fn set_poc_status(&mut self, status: NPoc)
        ensures
            final(self).kline == old(self).kline,
            final(self).footprint.trades@ == old(self).footprint.trades@,
            final(self).footprint.poc == match old(self).footprint.poc {
                Some(poc) => Some(PointOfControl { status, ..poc }),
                None => None,
            },
    {
        self.footprint.set_poc_status(status);
    }

    pub fn clear_trades(&mut self)
        ensures
            final(self).kline == old(self).kline,
            final(self).footprint.trades@ == Map::<i64, GroupedTrades>::empty(),
            final(self).footprint.poc is None,
    {
        self.footprint.clear();
    }

    pub fn calculate_poc(&mut self)
        requires
            totals_fit(old(self).footprint.trades@),
        ensures
            final(self).kline == old(self).kline,
            final(self).footprint.trades@ == old(self).footprint.trades@,
            old(self).footprint.trades@ == Map::<i64, GroupedTrades>::empty() ==> final(self).footprint.poc == old(self).footprint.poc,
            old(self).footprint.trades@ != Map::<i64, GroupedTrades>::empty() ==> {
                &&& final(self).footprint.poc is Some
                &&& is_poc(old(self).footprint.trades@, final(self).footprint.poc->0)
            },
    {
        self.footprint.calculate_poc();
    }

    pub fn last_trade_time(&self) -> (r: Option<u64>)
        ensures
            is_last_trade_t(self.footprint.trades@, r),
    {
        self.footprint.last_trade_t()
    }

    pub fn first_trade_time(&self) -> (r: Option<u64>)
        ensures
            is_first_trade_t(self.footprint.trades@, r),
    {
        self.footprint.first_trade_t()
    }

    pub fn last_price(&self) -> (r: Price)
        ensures
            r == self.kline.close,
    {
        self.kline.close
    }

    pub fn kline(&self) -> (r: Option<&Kline>)
        ensures
            r == Some(&self.kline),
    {
        Some(&self.kline)
    }

    pub fn value_high(&self) -> (r: Price)
        ensures
            r == self.kline.high,
    {
        self.kline.high
    }

    pub fn value_low(&self) -> (r: Price)
        ensures
            r == self.kline.low,
    {
        self.kline.low
    }
}

} // verus!
