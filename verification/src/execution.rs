//! Order execution: the order lifecycle state machine, the stop-loss
//! monitor, and the retry policy for transient submission failures.
//!
//! Lifecycle: `Pending` moves to `PartiallyFilled` and on to one of the
//! terminal states `Filled`, `Rejected` or `Cancelled`. The filled size is
//! monotonically non-decreasing until a terminal state, and no transition
//! leaves a terminal state: every mutation refuses an already-terminal
//! order and leaves it untouched.
//!
//! The stop-loss monitor watches open positions against their stop price
//! each cycle and issues a market-close order when breached. That path
//! bypasses the signal evaluator and is never risk-gated: it only ever
//! reduces risk.

use vstd::prelude::*;

use vstd::arithmetic::div_mod::{lemma_div_is_ordered, lemma_div_multiples_vanish};
use vstd::arithmetic::mul::{lemma_mul_inequality, lemma_mul_upper_bound};

use crate::account::{Fill, Position, PositionV};
use crate::types::{Direction, Side, MAX_PRICE, MAX_QTY};

verus! {

/// Lifecycle of an exchange order.
#[derive(Clone, Copy, Debug, PartialEq, Eq, Structural)]
pub enum OrderStatus {
    Pending,
    PartiallyFilled,
    Filled,
    Rejected,
    Cancelled,
}

/// Terminal states admit no further transition.
pub open spec fn is_terminal(s: OrderStatus) -> bool {
    s is Filled || s is Rejected || s is Cancelled
}

/// Why an order update was refused; the order is unchanged in every case.
#[derive(Clone, Copy, Debug, PartialEq, Eq, Structural)]
pub enum OrderUpdateError {
    /// The order is already in a terminal state.
    AlreadyTerminal,
    /// The fill would exceed the requested size.
    Overfill,
    /// Zero or out-of-range fill size or price.
    BadFill,
}

/// One exchange order, owned by the executor until it reaches a terminal
/// state and its fills have been folded into the account.
#[derive(Clone, Copy, Debug)]
pub struct Order {
    pub id: u64,
    pub instrument_id: u64,
    pub side: Side,
    pub requested_size: u64,
    pub filled_size: u64,
    /// Sum of fill sizes times fill prices, for the average fill price.
    pub filled_cost: u128,
    pub status: OrderStatus,
}

impl Order {
    pub open spec fn wf(self) -> bool {
        &&& 0 < self.requested_size <= MAX_QTY
        &&& self.filled_size <= self.requested_size
        &&& 0 <= self.filled_cost <= (self.filled_size as int) * (MAX_PRICE as int)
        &&& (self.status is Pending ==> self.filled_size == 0)
        &&& (self.status is PartiallyFilled ==> 0 < self.filled_size < self.requested_size)
        &&& (self.status is Filled ==> self.filled_size == self.requested_size)
    }

    /// A fresh order, pending at the exchange.
    pub fn new(id: u64, instrument_id: u64, side: Side, requested_size: u64) -> (o: Order)
        requires
            0 < requested_size <= MAX_QTY,
        ensures
            o.wf(),
            o.id == id,
            o.instrument_id == instrument_id,
            o.side == side,
            o.requested_size == requested_size,
            o.filled_size == 0,
            o.filled_cost == 0,
            o.status is Pending,
    {
        Order {
            id,
            instrument_id,
            side,
            requested_size,
            filled_size: 0,
            filled_cost: 0,
            status: OrderStatus::Pending,
        }
    }

    /// Record one fill event: the filled size grows by exactly the event's
    /// size (never shrinks), the order becomes `Filled` when it completes
    /// and `PartiallyFilled` otherwise, and the returned [`Fill`] is what
    /// the account must be handed. A terminal order, an oversized fill or a
    /// malformed one is refused with the order untouched.
    pub fn record_fill(&mut self, size: u64, price: u64, timestamp: u64) -> (r: Result<
        Fill,
        OrderUpdateError,
    >)
        requires
            old(self).wf(),
        ensures
            final(self).wf(),
            final(self).filled_size >= old(self).filled_size,
            is_terminal(old(self).status) ==> r == Err::<Fill, OrderUpdateError>(
                OrderUpdateError::AlreadyTerminal,
            ) && *final(self) == *old(self),
            !is_terminal(old(self).status) && (size == 0 || price == 0 || price > MAX_PRICE)
                ==> r == Err::<Fill, OrderUpdateError>(OrderUpdateError::BadFill) && *final(self)
                == *old(self),
            !is_terminal(old(self).status) && !(size == 0 || price == 0 || price > MAX_PRICE) && size
                > old(self).requested_size - old(self).filled_size ==> r == Err::<
                Fill,
                OrderUpdateError,
            >(OrderUpdateError::Overfill) && *final(self) == *old(self),
            !is_terminal(old(self).status) && !(size == 0 || price == 0 || price > MAX_PRICE) && size
                <= old(self).requested_size - old(self).filled_size ==> {
                &&& r == Ok::<Fill, OrderUpdateError>(
                    Fill {
                        instrument_id: old(self).instrument_id,
                        side: old(self).side,
                        size,
                        price,
                        timestamp,
                    },
                )
                &&& final(self).filled_size == old(self).filled_size + size
                &&& final(self).filled_cost == old(self).filled_cost + (size as int) * (
                price as int)
                &&& final(self).status == (if old(self).filled_size + size
                    == old(self).requested_size {
                    OrderStatus::Filled
                } else {
                    OrderStatus::PartiallyFilled
                })
                &&& final(self).id == old(self).id
                &&& final(self).instrument_id == old(self).instrument_id
                &&& final(self).side == old(self).side
                &&& final(self).requested_size == old(self).requested_size
            },
    {
        let terminal = match self.status {
            OrderStatus::Filled => true,
            OrderStatus::Rejected => true,
            OrderStatus::Cancelled => true,
            _ => false,
        };
        if terminal {
            return Err(OrderUpdateError::AlreadyTerminal);
        }
        if size == 0 || price == 0 || price > MAX_PRICE {
            return Err(OrderUpdateError::BadFill);
        }
        if size > self.requested_size - self.filled_size {
            return Err(OrderUpdateError::Overfill);
        }
        proof {
            lemma_mul_upper_bound(size as int, MAX_QTY as int, price as int, MAX_PRICE as int);
            vstd::arithmetic::mul::lemma_mul_nonnegative(size as int, price as int);
            lemma_mul_inequality(price as int, MAX_PRICE as int, size as int);
            assert((size as int) * (price as int) == (price as int) * (size as int) && (
            size as int) * (MAX_PRICE as int) == (MAX_PRICE as int) * (size as int))
                by (nonlinear_arith);
            let c0 = self.filled_cost as int;
            let s0 = self.filled_size as int;
            assert(c0 + (size as int) * (price as int) <= (s0 + size as int) * (MAX_PRICE as int))
                by (nonlinear_arith)
                requires
                    c0 <= s0 * (MAX_PRICE as int),
                    0 <= s0,
                    (size as int) * (price as int) <= (size as int) * (MAX_PRICE as int),
            ;
        }
        self.filled_size = self.filled_size + size;
        self.filled_cost = self.filled_cost + (size as u128) * (price as u128);
        if self.filled_size == self.requested_size {
            self.status = OrderStatus::Filled;
        } else {
            self.status = OrderStatus::PartiallyFilled;
        }
        Ok(
            Fill {
                instrument_id: self.instrument_id,
                side: self.side,
                size,
                price,
                timestamp,
            },
        )
    }

    /// Cancel a live order. Refused, with nothing changed, once terminal.
    pub fn cancel(&mut self) -> (r: Result<(), OrderUpdateError>)
        requires
            old(self).wf(),
        ensures
            final(self).wf(),
            is_terminal(old(self).status) ==> r == Err::<(), OrderUpdateError>(
                OrderUpdateError::AlreadyTerminal,
            ) && *final(self) == *old(self),
            !is_terminal(old(self).status) ==> r == Ok::<(), OrderUpdateError>(()) && *final(self)
                == (Order { status: OrderStatus::Cancelled, ..*old(self) }),
    {
        let terminal = match self.status {
            OrderStatus::Filled => true,
            OrderStatus::Rejected => true,
            OrderStatus::Cancelled => true,
            _ => false,
        };
        if terminal {
            Err(OrderUpdateError::AlreadyTerminal)
        } else {
            self.status = OrderStatus::Cancelled;
            Ok(())
        }
    }

    /// Mark a live order rejected by the exchange (terminal, non-retryable).
    pub fn reject(&mut self) -> (r: Result<(), OrderUpdateError>)
        requires
            old(self).wf(),
        ensures
            final(self).wf(),
            is_terminal(old(self).status) ==> r == Err::<(), OrderUpdateError>(
                OrderUpdateError::AlreadyTerminal,
            ) && *final(self) == *old(self),
            !is_terminal(old(self).status) ==> r == Ok::<(), OrderUpdateError>(()) && *final(self)
                == (Order { status: OrderStatus::Rejected, ..*old(self) }),
    {
        let terminal = match self.status {
            OrderStatus::Filled => true,
            OrderStatus::Rejected => true,
            OrderStatus::Cancelled => true,
            _ => false,
        };
        if terminal {
            Err(OrderUpdateError::AlreadyTerminal)
        } else {
            self.status = OrderStatus::Rejected;
            Ok(())
        }
    }

    /// Size-weighted average fill price, once anything filled.
    pub fn avg_fill_price(&self) -> (r: Option<u64>)
        requires
            self.wf(),
        ensures
            self.filled_size == 0 ==> r is None,
            self.filled_size > 0 ==> r == Some(
                ((self.filled_cost as int) / (self.filled_size as int)) as u64,
            ),
    {
        if self.filled_size == 0 {
            None
        } else {
            proof {
                lemma_div_is_ordered(
                    self.filled_cost as int,
                    (self.filled_size as int) * (MAX_PRICE as int),
                    self.filled_size as int,
                );
                lemma_div_multiples_vanish(MAX_PRICE as int, self.filled_size as int);
                assert((self.filled_size as int) * (MAX_PRICE as int) == (MAX_PRICE as int) * (
                self.filled_size as int)) by (nonlinear_arith);
                vstd::arithmetic::div_mod::lemma_div_pos_is_pos(
                    self.filled_cost as int,
                    self.filled_size as int,
                );
            }
            Some((self.filled_cost / (self.filled_size as u128)) as u64)
        }
    }
}

/// The position's stop-loss is breached at this price: at or below the stop
/// for longs, at or above it for shorts. Flat positions never trigger.
pub open spec fn stop_triggered(p: PositionV, price: int) -> bool {
    p.net_size > 0 && match p.direction {
        Direction::Long => price <= p.stop_loss_price,
        Direction::Short => price >= p.stop_loss_price,
        Direction::Flat => false,
    }
}

/// Whether a tick at `price` breaches the position's stop-loss.
pub fn stop_loss_triggered(p: &Position, price: u64) -> (r: bool)
    ensures
        r == stop_triggered(p@, price as int),
{
    if p.net_size == 0 {
        return false;
    }
    match p.direction {
        Direction::Long => price <= p.stop_loss_price,
        Direction::Short => price >= p.stop_loss_price,
        Direction::Flat => false,
    }
}

/// The market-close order for a breached position, and nothing otherwise.
/// It closes the full net size on the opposite side, bypassing the signal
/// evaluator, and is never risk-gated: it only ever reduces exposure.
pub fn stop_loss_order(p: &Position, price: u64, order_id: u64) -> (r: Option<Order>)
    requires
        p@.wf(),
    ensures
        r is Some <==> stop_triggered(p@, price as int),
        match r {
            Some(o) => {
                &&& o.wf()
                &&& o.id == order_id
                &&& o.instrument_id == p.instrument_id
                &&& o.side == (if p.direction is Long {
                    Side::Sell
                } else {
                    Side::Buy
                })
                &&& o.requested_size == p.net_size
                &&& o.status is Pending
            },
            None => true,
        },
{
    if !stop_loss_triggered(p, price) {
        return None;
    }
    let side = match p.direction {
        Direction::Long => Side::Sell,
        _ => Side::Buy,
    };
    Some(Order::new(order_id, p.instrument_id, side, p.net_size))
}

/// Submission failures, per the exchange's answer: transient ones (network
/// trouble, server errors, timeouts) are retried with backoff; terminal
/// ones (insufficient margin, invalid instrument) abandon the order.
#[derive(Clone, Copy, Debug, PartialEq, Eq, Structural)]
pub enum SubmitError {
    Transient,
    Terminal,
}

/// What the executor does after a failed submission attempt.
#[derive(Clone, Copy, Debug, PartialEq, Eq, Structural)]
pub enum RetryDecision {
    /// Try again after waiting this many milliseconds.
    Retry { backoff_ms: u64 },
    /// Give up: the order is abandoned and positions are unaffected.
    Abandon,
}

/// Exponential backoff, doubling per attempt already made, capped at 2^16
/// times the base delay.
pub open spec fn backoff_spec(base_ms: u64, attempts: u32) -> u64 {
    if attempts <= 16 {
        (base_ms << attempts) as u64
    } else {
        (base_ms << 16u32) as u64
    }
}

/// The retry policy as a function of the error kind and the attempts made.
pub open spec fn retry_spec(
    error: SubmitError,
    attempts: u32,
    max_attempts: u32,
    base_ms: u64,
) -> RetryDecision {
    if error is Terminal || attempts >= max_attempts {
        RetryDecision::Abandon
    } else {
        RetryDecision::Retry { backoff_ms: backoff_spec(base_ms, attempts) }
    }
}

/// Decide whether a failed submission is retried: transient errors retry
/// with exponential backoff until the attempt budget is spent; terminal
/// rejections are abandoned at once.
pub fn retry_decision(error: SubmitError, attempts: u32, max_attempts: u32, base_ms: u64) -> (r:
    RetryDecision)
    ensures
        r == retry_spec(error, attempts, max_attempts, base_ms),
{
    let terminal = match error {
        SubmitError::Terminal => true,
        SubmitError::Transient => false,
    };
    if terminal || attempts >= max_attempts {
        RetryDecision::Abandon
    } else {
        let shift: u32 = if attempts <= 16 {
            attempts
        } else {
            16
        };
        RetryDecision::Retry { backoff_ms: base_ms << shift }
    }
}

} // verus!
