//! Shared scalar conventions of the engine.
//!
//! Prices and quantities are plain integers in exchange minor units.
//! Fractions (risk limits, stop-loss distance, drop thresholds) are carried
//! in basis points: a value of `500` means 5%. RSI values are carried in
//! hundredths of an RSI point: `4500` means an RSI of 45.00.

use vstd::prelude::*;

verus! {

/// Denominator of all basis-point fractions: 10000 basis points are 100%.
pub const BPS_DENOM: u64 = 10000;

/// Scale of RSI values: 10000 hundredths are an RSI of 100, the top of the range.
pub const RSI_DENOM: u32 = 10000;

/// Largest price the engine accepts, in integer price units (2^40).
pub const MAX_PRICE: u64 = 0x100_0000_0000;

/// Largest order or position quantity the engine accepts (2^40).
pub const MAX_QTY: u64 = 0x100_0000_0000;

/// Bound on how many instruments one account tracks.
pub const MAX_POSITIONS: usize = 16;

/// Bound on the rolling indicator window length.
pub const MAX_WINDOW: usize = 4096;

/// Bound on the magnitude of accumulated realized profit and loss (2^100).
pub const MAX_PNL: i128 = 0x10_0000_0000_0000_0000_0000_0000;

/// Net exposure of a position, or the sense of a trade intent.
#[derive(Clone, Copy, Debug, PartialEq, Eq, Structural)]
pub enum Direction {
    Long,
    Short,
    Flat,
}

/// Side of an order or fill as the exchange sees it.
#[derive(Clone, Copy, Debug, PartialEq, Eq, Structural)]
pub enum Side {
    Buy,
    Sell,
}

impl Side {
    /// Direction of the position that a standalone fill on this side opens.
    pub open spec fn direction_spec(self) -> Direction {
        match self {
            Side::Buy => Direction::Long,
            Side::Sell => Direction::Short,
        }
    }

    pub fn direction(self) -> (d: Direction)
        ensures
            d == self.direction_spec(),
    {
        match self {
            Side::Buy => Direction::Long,
            Side::Sell => Direction::Short,
        }
    }

    pub open spec fn opposite_spec(self) -> Side {
        match self {
            Side::Buy => Side::Sell,
            Side::Sell => Side::Buy,
        }
    }

    pub fn opposite(self) -> (s: Side)
        ensures
            s == self.opposite_spec(),
    {
        match self {
            Side::Buy => Side::Sell,
            Side::Sell => Side::Buy,
        }
    }
}

/// The direction a fill on `side` pushes a position toward agrees with `dir`.
pub open spec fn side_extends(side: Side, dir: Direction) -> bool {
    side.direction_spec() == dir
}

} // verus!
