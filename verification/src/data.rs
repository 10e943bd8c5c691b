//! Market-data values as the decision core sees them.
//!
//! The transport that produces ticks is an external collaborator; the core
//! only states what a usable tick looks like and why one is dropped.

use vstd::prelude::*;

use crate::types::{MAX_PRICE, RSI_DENOM};

verus! {

/// One market-data update for an instrument. Immutable once produced;
/// ordered by timestamp per instrument. The feed may attach a precomputed
/// RSI snapshot (in hundredths of an RSI point); when absent, the evaluator
/// computes RSI from its own rolling window.
#[derive(Clone, Copy, Debug)]
pub struct Tick {
    pub instrument_id: u64,
    pub timestamp: u64,
    /// Trade price, in integer price units; zero never occurs in a usable tick.
    pub price: u64,
    pub volume: u64,
    /// Feed-side indicator snapshot: RSI in hundredths, if the feed computed one.
    pub rsi: Option<u32>,
}

/// Why a tick was dropped. Dropping is local recovery: the evaluator's state
/// is left unchanged and the caller only logs the reason.
#[derive(Clone, Copy, Debug, PartialEq, Eq, Structural)]
pub enum FeedError {
    /// The tick belongs to an instrument this evaluator does not watch.
    WrongInstrument,
    /// Zero or out-of-range price, or an out-of-range RSI snapshot.
    Malformed,
    /// The timestamp is not after the last accepted tick's timestamp.
    OutOfOrder,
}

/// A tick whose values the core can work with.
pub open spec fn tick_wf(t: Tick) -> bool {
    &&& 0 < t.price <= MAX_PRICE
    &&& match t.rsi {
        Some(r) => r <= RSI_DENOM,
        None => true,
    }
}

} // verus!
