//! The risk gate: validates one trade intent against one account snapshot
//! and the configured limits. A pure function of its inputs — no hidden
//! state — so identical inputs always yield the identical decision.
//!
//! Rejections: a malformed intent (no direction, zero size or price), an
//! open position in the opposite direction (no simultaneous long and short
//! in one instrument), or a cash balance that cannot cover the requested
//! notional. When the requested notional merely exceeds the per-trade risk
//! cap, there is no rejection: the size is trimmed to what the risk limit
//! admits, and the decision records that trim.

use vstd::prelude::*;

use vstd::arithmetic::div_mod::{lemma_div_pos_is_pos, lemma_fundamental_div_mod};
use vstd::arithmetic::mul::{lemma_mul_inequality, lemma_mul_upper_bound};

use crate::account::{AccountSnapshot, SnapshotV};
use crate::config::{risk_wf, RiskConfig};
use crate::signal::TradeIntent;
use crate::types::{Direction, BPS_DENOM, MAX_PNL, MAX_POSITIONS, MAX_PRICE, MAX_QTY};

verus! {

/// Why an intent was turned away. A rejection is a decision outcome, not an
/// error.
#[derive(Clone, Copy, Debug, PartialEq, Eq, Structural)]
pub enum RejectReason {
    /// No tradable direction, or zero size or price.
    InvalidIntent,
    /// The account already holds an unclosed position in the opposite
    /// direction for this instrument.
    OppositePosition,
    /// The cash balance cannot cover the requested notional at the intent's
    /// price.
    InsufficientBalance,
}

/// Outcome of a risk check. Ephemeral: consumed by the executor, never
/// persisted.
#[derive(Clone, Copy, Debug, PartialEq, Eq, Structural)]
pub struct RiskDecision {
    pub approved: bool,
    /// The size that may actually be traded: the requested size, possibly
    /// reduced to the per-trade risk cap; zero when rejected.
    pub adjusted_size: u64,
    pub reason_if_rejected: Option<RejectReason>,
}

/// Validates trade intents against account snapshots under fixed limits.
pub struct RiskGate {
    pub config: RiskConfig,
}

/// The snapshot holds an unclosed position opposite to the intent, at this
/// index.
pub open spec fn opposite_at(snap: SnapshotV, intent: TradeIntent, i: int) -> bool {
    &&& snap.positions[i].instrument_id == intent.instrument_id
    &&& snap.positions[i].net_size > 0
    &&& snap.positions[i].direction != intent.direction
}

pub open spec fn has_opposite(snap: SnapshotV, intent: TradeIntent) -> bool {
    exists|i: int| 0 <= i < snap.positions.len() && #[trigger] opposite_at(snap, intent, i)
}

/// Largest notional one trade may put at risk: the configured fraction of
/// equity, and nothing when equity is gone.
pub open spec fn max_notional(cfg: RiskConfig, snap: SnapshotV) -> int {
    if snap.equity() <= 0 {
        0
    } else {
        snap.equity() * (cfg.max_trade_risk as int) / (BPS_DENOM as int)
    }
}

/// The full decision, as a function of the configuration, the intent and
/// the snapshot alone.
pub open spec fn check_spec(cfg: RiskConfig, intent: TradeIntent, snap: SnapshotV) -> RiskDecision {
    let notional = (intent.size as int) * (intent.price as int);
    if intent.direction is Flat || intent.size == 0 || intent.price == 0 || intent.size > MAX_QTY
        || intent.price > MAX_PRICE {
        RiskDecision {
            approved: false,
            adjusted_size: 0,
            reason_if_rejected: Some(RejectReason::InvalidIntent),
        }
    } else if has_opposite(snap, intent) {
        RiskDecision {
            approved: false,
            adjusted_size: 0,
            reason_if_rejected: Some(RejectReason::OppositePosition),
        }
    } else if notional > snap.balance as int {
        RiskDecision {
            approved: false,
            adjusted_size: 0,
            reason_if_rejected: Some(RejectReason::InsufficientBalance),
        }
    } else if notional > max_notional(cfg, snap) {
        RiskDecision {
            approved: true,
            adjusted_size: (max_notional(cfg, snap) / (intent.price as int)) as u64,
            reason_if_rejected: None,
        }
    } else {
        RiskDecision { approved: true, adjusted_size: intent.size, reason_if_rejected: None }
    }
}

/// The risk gate is pure: equal (intent, snapshot) pairs yield the equal
/// decision under the same limits, with no hidden state anywhere, so two
/// checks of equal inputs can never disagree.
pub proof fn lemma_risk_gate_pure(
    cfg: RiskConfig,
    i1: TradeIntent,
    i2: TradeIntent,
    s1: SnapshotV,
    s2: SnapshotV,
)
    requires
        i1 == i2,
        s1 == s2,
    ensures
        check_spec(cfg, i1, s1) == check_spec(cfg, i2, s2),
{
}

/// A quotient is below anything whose product with the divisor exceeds the
/// dividend.
proof fn lemma_div_below(x: int, p: int, s: int)
    requires
        0 <= x,
        0 < p,
        0 < s,
        x < s * p,
    ensures
        x / p < s,
{
    lemma_fundamental_div_mod(x, p);
    lemma_div_pos_is_pos(x, p);
    if x / p >= s {
        lemma_mul_inequality(s, x / p, p);
        assert(s * p <= (x / p) * p);
        assert((x / p) * p == p * (x / p)) by (nonlinear_arith);
        assert(false);
    }
}

impl RiskGate {
    pub fn new(config: RiskConfig) -> (g: Self)
        ensures
            g.config == config,
    {
        RiskGate { config }
    }

    /// Validate an intent against a snapshot: returns exactly
    /// [`check_spec`] of the inputs, never mutating either.
    pub fn check(&self, intent: &TradeIntent, snapshot: &AccountSnapshot) -> (d: RiskDecision)
        requires
            snapshot@.wf(),
            risk_wf(self.config),
        ensures
            d == check_spec(self.config, *intent, snapshot@),
    {
        let flat = match intent.direction {
            Direction::Flat => true,
            _ => false,
        };
        if flat || intent.size == 0 || intent.price == 0 || intent.size > MAX_QTY || intent.price
            > MAX_PRICE {
            return RiskDecision {
                approved: false,
                adjusted_size: 0,
                reason_if_rejected: Some(RejectReason::InvalidIntent),
            };
        }
        let n = snapshot.positions.len();
        let mut i: usize = 0;
        while i < n
            invariant
                i <= n,
                n == snapshot.positions@.len(),
                n == snapshot@.positions.len(),
                !(intent.direction is Flat),
                0 < intent.size <= MAX_QTY,
                0 < intent.price <= MAX_PRICE,
                forall|k: int| 0 <= k < i ==> !#[trigger] opposite_at(snapshot@, *intent, k),
            decreases n - i,
        {
            let p = &snapshot.positions[i];
            if p.instrument_id == intent.instrument_id && p.net_size > 0 && !(p.direction
                == intent.direction) {
                proof {
                    assert(snapshot@.positions[i as int] == snapshot.positions@[i as int]@);
                    assert(opposite_at(snapshot@, *intent, i as int));
                    assert(has_opposite(snapshot@, *intent));
                }
                return RiskDecision {
                    approved: false,
                    adjusted_size: 0,
                    reason_if_rejected: Some(RejectReason::OppositePosition),
                };
            }
            proof {
                assert(snapshot@.positions[i as int] == snapshot.positions@[i as int]@);
                assert(!opposite_at(snapshot@, *intent, i as int));
            }
            i = i + 1;
        }
        proof {
            assert(forall|k: int|
                0 <= k < snapshot@.positions.len() ==> !#[trigger] opposite_at(
                    snapshot@,
                    *intent,
                    k,
                ));
        }
        proof {
            lemma_mul_upper_bound(
                intent.size as int,
                MAX_QTY as int,
                intent.price as int,
                MAX_PRICE as int,
            );
            vstd::arithmetic::mul::lemma_mul_nonnegative(intent.size as int, intent.price as int);
        }
        let notional = (intent.size as u128) * (intent.price as u128);
        if notional > snapshot.balance as u128 {
            return RiskDecision {
                approved: false,
                adjusted_size: 0,
                reason_if_rejected: Some(RejectReason::InsufficientBalance),
            };
        }
        let eq = snapshot.equity();
        let cap: u128 = if eq <= 0 {
            0
        } else {
            proof {
                lemma_equity_bound(snapshot@);
                lemma_mul_upper_bound(
                    eq as int,
                    (u64::MAX as int) + (MAX_POSITIONS as int) * ((MAX_PNL as int) + 2 * (
                    MAX_QTY as int) * (MAX_PRICE as int)),
                    self.config.max_trade_risk as int,
                    BPS_DENOM as int,
                );
                vstd::arithmetic::mul::lemma_mul_nonnegative(
                    eq as int,
                    self.config.max_trade_risk as int,
                );
            }
            ((eq as u128) * (self.config.max_trade_risk as u128)) / (BPS_DENOM as u128)
        };
        if notional > cap {
            proof {
                lemma_div_below(cap as int, intent.price as int, intent.size as int);
                lemma_div_pos_is_pos(cap as int, intent.price as int);
            }
            let adjusted = (cap / (intent.price as u128)) as u64;
            RiskDecision { approved: true, adjusted_size: adjusted, reason_if_rejected: None }
        } else {
            RiskDecision { approved: true, adjusted_size: intent.size, reason_if_rejected: None }
        }
    }
}

/// Equity of a well-formed snapshot is bounded by the cash cap plus the
/// per-position profit bound.
proof fn lemma_equity_bound(snap: SnapshotV)
    requires
        snap.wf(),
    ensures
        snap.equity() <= (u64::MAX as int) + (MAX_POSITIONS as int) * ((MAX_PNL as int) + 2 * (
        MAX_QTY as int) * (MAX_PRICE as int)),
{
    crate::account::lemma_sum_pnl_bound(snap.positions);
    lemma_mul_inequality(
        snap.positions.len() as int,
        MAX_POSITIONS as int,
        (MAX_PNL as int) + 2 * (MAX_QTY as int) * (MAX_PRICE as int),
    );
}

} // verus!
