//! The account ledger: balances, open positions, realized and unrealized
//! profit and loss. It is the single source of truth for risk checks and the
//! sole writer of position data: every position change goes through
//! [`AccountState::apply_fill`].
//!
//! A position keeps its cost basis (the size-weighted sum of entry prices
//! times sizes) instead of a rounded entry price, so the weighted-average
//! invariant holds exactly: the entry price is `cost / net_size`. The
//! stop-loss price is recomputed from the entry price on every fill.

use vstd::prelude::*;

use vstd::arithmetic::div_mod::{
    lemma_div_is_ordered,
    lemma_div_multiples_vanish,
    lemma_div_pos_is_pos,
    lemma_fundamental_div_mod,
};
use vstd::arithmetic::mul::{lemma_mul_inequality, lemma_mul_upper_bound};

use crate::types::{
    side_extends,
    Direction,
    Side,
    BPS_DENOM,
    MAX_PNL,
    MAX_POSITIONS,
    MAX_PRICE,
    MAX_QTY,
};

verus! {

/// Bookkeeping failures. `Inconsistent` marks a fill for an instrument the
/// account never registered: a correctness bug upstream, surfaced rather
/// than swallowed.
#[derive(Clone, Copy, Debug, PartialEq, Eq, Structural)]
pub enum AccountError {
    Inconsistent,
}

/// Confirmation from the exchange that all or part of an order executed.
#[derive(Clone, Copy, Debug, PartialEq, Eq, Structural)]
pub struct Fill {
    pub instrument_id: u64,
    pub side: Side,
    pub size: u64,
    pub price: u64,
    pub timestamp: u64,
}

pub open spec fn fill_wf(f: Fill) -> bool {
    &&& 0 < f.size <= MAX_QTY
    &&& 0 < f.price <= MAX_PRICE
}

/// One instrument's net exposure. Flat positions (size zero) stay registered
/// so later fills have a record to land in.
#[derive(Clone, Copy, Debug)]
pub struct Position {
    pub instrument_id: u64,
    pub direction: Direction,
    pub net_size: u64,
    /// Cost basis: size-weighted sum of entry prices times sizes; the entry
    /// price is `cost / net_size`.
    pub cost: u128,
    pub stop_loss_price: u64,
    pub realized_pnl: i128,
    pub last_price: u64,
}

/// Mathematical view of a position, over unbounded integers.
pub struct PositionV {
    pub instrument_id: u64,
    pub direction: Direction,
    pub net_size: int,
    pub cost: int,
    pub stop_loss_price: int,
    pub realized_pnl: int,
    pub last_price: int,
}

impl View for Position {
    type V = PositionV;

    open spec fn view(&self) -> PositionV {
        PositionV {
            instrument_id: self.instrument_id,
            direction: self.direction,
            net_size: self.net_size as int,
            cost: self.cost as int,
            stop_loss_price: self.stop_loss_price as int,
            realized_pnl: self.realized_pnl as int,
            last_price: self.last_price as int,
        }
    }
}

impl PositionV {
    pub open spec fn wf(self) -> bool {
        &&& 0 <= self.net_size <= MAX_QTY
        &&& 0 <= self.cost <= self.net_size * (MAX_PRICE as int)
        &&& (self.direction is Flat <==> self.net_size == 0)
        &&& (self.net_size == 0 ==> self.cost == 0 && self.stop_loss_price == 0)
        &&& 0 <= self.stop_loss_price
        &&& 0 <= self.last_price <= MAX_PRICE
        &&& -(MAX_PNL as int) <= self.realized_pnl <= MAX_PNL as int
    }

    /// Size-weighted average entry price; zero for a flat position.
    pub open spec fn entry_price(self) -> int {
        if self.net_size == 0 {
            0
        } else {
            self.cost / self.net_size
        }
    }

    /// Profit and loss of the open size, marked at the last known price.
    pub open spec fn unrealized_pnl(self) -> int {
        match self.direction {
            Direction::Long => self.net_size * self.last_price - self.cost,
            Direction::Short => self.cost - self.net_size * self.last_price,
            Direction::Flat => 0,
        }
    }
}

/// Stop-loss price for an entry price: the configured fraction below it for
/// longs, the mirror above it for shorts.
pub open spec fn stop_price(direction: Direction, entry: int, stop_loss_bps: u32) -> int {
    match direction {
        Direction::Long => entry * (BPS_DENOM as int - stop_loss_bps as int) / (BPS_DENOM as int),
        Direction::Short => entry * (BPS_DENOM as int + stop_loss_bps as int) / (BPS_DENOM as int),
        Direction::Flat => 0,
    }
}

/// Profit realized by closing size against a basis: proceeds minus basis for
/// longs, basis minus proceeds for shorts.
pub open spec fn close_pnl(direction: Direction, proceeds: int, basis: int) -> int {
    if direction is Long {
        proceeds - basis
    } else {
        basis - proceeds
    }
}

/// The position after one fill. Same-direction fills (and fills into a flat
/// position) extend the basis; opposite fills realize profit against the
/// average entry, pro-rating the basis, and flip the direction when they
/// overshoot.
pub open spec fn pos_after_fill(p: PositionV, f: Fill, stop_loss_bps: u32) -> PositionV {
    let fs = f.size as int;
    let fp = f.price as int;
    if p.net_size == 0 || side_extends(f.side, p.direction) {
        let size = p.net_size + fs;
        let cost = p.cost + fs * fp;
        PositionV {
            direction: f.side.direction_spec(),
            net_size: size,
            cost: cost,
            stop_loss_price: stop_price(f.side.direction_spec(), cost / size, stop_loss_bps),
            last_price: fp,
            ..p
        }
    } else if fs < p.net_size {
        let removed = p.cost * fs / p.net_size;
        let size = p.net_size - fs;
        let cost = p.cost - removed;
        PositionV {
            net_size: size,
            cost: cost,
            stop_loss_price: stop_price(p.direction, cost / size, stop_loss_bps),
            realized_pnl: p.realized_pnl + close_pnl(p.direction, fs * fp, removed),
            last_price: fp,
            ..p
        }
    } else if fs == p.net_size {
        PositionV {
            direction: Direction::Flat,
            net_size: 0,
            cost: 0,
            stop_loss_price: 0,
            realized_pnl: p.realized_pnl + close_pnl(p.direction, fs * fp, p.cost),
            last_price: fp,
            ..p
        }
    } else {
        let rem = fs - p.net_size;
        let cost = rem * fp;
        PositionV {
            direction: f.side.direction_spec(),
            net_size: rem,
            cost: cost,
            stop_loss_price: stop_price(f.side.direction_spec(), cost / rem, stop_loss_bps),
            realized_pnl: p.realized_pnl + close_pnl(p.direction, p.net_size * fp, p.cost),
            last_price: fp,
            ..p
        }
    }
}

/// The machine can hold the result of this fill: the new size stays within
/// bounds and the realized profit accumulator does not saturate.
pub open spec fn fill_fits(p: PositionV, f: Fill, stop_loss_bps: u32) -> bool {
    let q = pos_after_fill(p, f, stop_loss_bps);
    &&& q.net_size <= MAX_QTY
    &&& -(MAX_PNL as int) <= q.realized_pnl <= MAX_PNL as int
}

/// Pro-rated basis removal: the removed part of the basis is nonnegative, at
/// most the basis, and what remains respects the per-unit price bound.
proof fn lemma_prorate_upper(c: int, s: int, fs: int, m: int)
    requires
        0 < fs < s,
        0 <= c,
        c <= s * m,
        0 <= m,
    ensures
        0 <= c * fs / s,
        c * fs / s <= c,
        c - c * fs / s <= (s - fs) * m,
{
    lemma_mul_upper_bound(c, c, fs, s - 1);
    lemma_div_pos_is_pos(c * fs, s);
    lemma_mul_inequality(fs, s, c);
    assert(c * fs == fs * c && c * s == s * c) by (nonlinear_arith);
    lemma_div_is_ordered(c * fs, c * s, s);
    lemma_div_multiples_vanish(c, s);
    let d = c * fs / s;
    let r = c * fs % s;
    lemma_fundamental_div_mod(c * fs, s);
    assert(c - d <= (s - fs) * m) by (nonlinear_arith)
        requires
            c * fs == s * d + r,
            0 <= r < s,
            0 < fs < s,
            0 <= c <= s * m,
            0 <= m,
    ;
}

/// Entry prices never exceed the price cap, so the derived stop-loss price
/// fits comfortably in a machine word.
proof fn lemma_entry_bounded(cost: int, size: int)
    requires
        0 < size,
        0 <= cost <= size * (MAX_PRICE as int),
    ensures
        0 <= cost / size <= MAX_PRICE as int,
{
    lemma_div_pos_is_pos(cost, size);
    lemma_div_is_ordered(cost, size * (MAX_PRICE as int), size);
    lemma_div_multiples_vanish(MAX_PRICE as int, size);
    assert(size * (MAX_PRICE as int) == (MAX_PRICE as int) * size) by (nonlinear_arith);
    assert((size * (MAX_PRICE as int)) / size == MAX_PRICE as int);
}

/// A fill that fits keeps a position well formed.
pub proof fn lemma_fill_preserves_wf(p: PositionV, f: Fill, stop_loss_bps: u32)
    requires
        p.wf(),
        fill_wf(f),
        fill_fits(p, f, stop_loss_bps),
        stop_loss_bps < BPS_DENOM,
    ensures
        pos_after_fill(p, f, stop_loss_bps).wf(),
{
    let q = pos_after_fill(p, f, stop_loss_bps);
    let fs = f.size as int;
    let fp = f.price as int;
    let bps = BPS_DENOM as int;
    if p.net_size == 0 || side_extends(f.side, p.direction) {
        let size = p.net_size + fs;
        let cost = p.cost + fs * fp;
        lemma_mul_inequality(fp, MAX_PRICE as int, fs);
        assert(fs * fp == fp * fs && fs * (MAX_PRICE as int) == (MAX_PRICE as int) * fs)
            by (nonlinear_arith);
        assert(cost <= size * (MAX_PRICE as int)) by (nonlinear_arith)
            requires
                p.cost <= p.net_size * (MAX_PRICE as int),
                fs * fp <= fs * (MAX_PRICE as int),
                cost == p.cost + fs * fp,
                size == p.net_size + fs,
        ;
        lemma_mul_upper_bound(fs, MAX_QTY as int, fp, MAX_PRICE as int);
        lemma_entry_bounded(cost, size);
        lemma_div_pos_is_pos(cost / size * (bps - stop_loss_bps), bps);
        lemma_div_pos_is_pos(cost / size * (bps + stop_loss_bps), bps);
        lemma_mul_upper_bound(cost / size, MAX_PRICE as int, bps - stop_loss_bps, bps);
        lemma_mul_upper_bound(cost / size, MAX_PRICE as int, bps + stop_loss_bps, 2 * bps);
    } else if fs < p.net_size {
        lemma_prorate_upper(p.cost, p.net_size, fs, MAX_PRICE as int);
        let size = p.net_size - fs;
        let cost = p.cost - p.cost * fs / p.net_size;
        lemma_entry_bounded(cost, size);
        lemma_div_pos_is_pos(cost / size * (bps - stop_loss_bps), bps);
        lemma_div_pos_is_pos(cost / size * (bps + stop_loss_bps), bps);
    } else if fs == p.net_size {
    } else {
        let rem = fs - p.net_size;
        let cost = rem * fp;
        lemma_mul_inequality(fp, MAX_PRICE as int, rem);
        assert(rem * fp == fp * rem && rem * (MAX_PRICE as int) == (MAX_PRICE as int) * rem)
            by (nonlinear_arith);
        lemma_div_pos_is_pos(cost, rem);
        lemma_entry_bounded(cost, rem);
        lemma_div_pos_is_pos(cost / rem * (bps - stop_loss_bps), bps);
        lemma_div_pos_is_pos(cost / rem * (bps + stop_loss_bps), bps);
    }
}

/// Same-direction fills obey the weighted-average invariant: applying two
/// fills in either order of arrival equals applying one combined fill whose
/// notional is their summed notionals, over the same total size.
pub proof fn lemma_fills_weighted_average(p: PositionV, f1: Fill, f2: Fill, fc: Fill, sl: u32)
    requires
        fill_wf(f1),
        fill_wf(f2),
        fill_wf(fc),
        f2.side == f1.side,
        fc.side == f1.side,
        p.net_size == 0 || side_extends(f1.side, p.direction),
        fc.size as int == f1.size as int + f2.size as int,
        (fc.size as int) * (fc.price as int) == (f1.size as int) * (f1.price as int) + (
        f2.size as int) * (f2.price as int),
    ensures
        ({
            let sequential = pos_after_fill(pos_after_fill(p, f1, sl), f2, sl);
            let combined = pos_after_fill(p, fc, sl);
            &&& sequential.net_size == combined.net_size
            &&& sequential.cost == combined.cost
            &&& sequential.entry_price() == combined.entry_price()
            &&& sequential.stop_loss_price == combined.stop_loss_price
            &&& sequential.realized_pnl == combined.realized_pnl
            &&& sequential.direction == combined.direction
        }),
{
    let p1 = pos_after_fill(p, f1, sl);
    assert(side_extends(f2.side, p1.direction));
}

/// Round trip: opening a flat position and fully closing it with the
/// equal-and-opposite fill returns the net size to zero, leaves nothing
/// unrealized, and realizes exactly what the open position showed as
/// unrealized when marked at the closing price.
pub proof fn lemma_round_trip(p: PositionV, open_fill: Fill, close_fill: Fill, sl: u32)
    requires
        fill_wf(open_fill),
        fill_wf(close_fill),
        p.net_size == 0,
        close_fill.side == open_fill.side.opposite_spec(),
        close_fill.size == open_fill.size,
    ensures
        ({
            let opened = pos_after_fill(p, open_fill, sl);
            let closed = pos_after_fill(opened, close_fill, sl);
            &&& closed.net_size == 0
            &&& closed.direction is Flat
            &&& closed.unrealized_pnl() == 0
            &&& closed.realized_pnl - p.realized_pnl == (PositionV {
                last_price: close_fill.price as int,
                ..opened
            }).unrealized_pnl()
        }),
{
    let opened = pos_after_fill(p, open_fill, sl);
    assert(!side_extends(close_fill.side, opened.direction));
}

/// Registered account instruments, each with its (possibly flat) position.
pub struct AccountV {
    pub balance: u64,
    pub positions: Seq<PositionV>,
    pub stop_loss: u32,
    pub last_update: u64,
}

/// Immutable read-only view of the account, handed to the risk gate; the
/// reader never mutates it and tolerates it being slightly stale.
#[derive(Clone, Debug)]
pub struct AccountSnapshot {
    pub balance: u64,
    pub positions: Vec<Position>,
    pub timestamp: u64,
}

/// Mathematical view of a snapshot.
pub struct SnapshotV {
    pub balance: u64,
    pub positions: Seq<PositionV>,
    pub timestamp: u64,
}

impl View for AccountSnapshot {
    type V = SnapshotV;

    open spec fn view(&self) -> SnapshotV {
        SnapshotV {
            balance: self.balance,
            positions: self.positions@.map_values(|p: Position| p@),
            timestamp: self.timestamp,
        }
    }
}

/// Summed profit and loss, realized plus unrealized, over all positions.
pub open spec fn sum_pnl(ps: Seq<PositionV>) -> int
    decreases ps.len(),
{
    if ps.len() == 0 {
        0
    } else {
        sum_pnl(ps.drop_last()) + ps.last().unrealized_pnl() + ps.last().realized_pnl
    }
}

/// Per-position bound on the profit-and-loss contribution.
pub open spec fn pnl_step() -> int {
    MAX_PNL as int + 2 * (MAX_QTY as int) * (MAX_PRICE as int)
}

pub proof fn lemma_sum_pnl_bound(ps: Seq<PositionV>)
    requires
        forall|i: int| 0 <= i < ps.len() ==> (#[trigger] ps[i]).wf(),
    ensures
        -(ps.len() * pnl_step()) <= sum_pnl(ps) <= ps.len() * pnl_step(),
    decreases ps.len(),
{
    if ps.len() > 0 {
        assert(forall|i: int|
            0 <= i < ps.drop_last().len() ==> (#[trigger] ps.drop_last()[i]).wf());
        lemma_sum_pnl_bound(ps.drop_last());
        let q = ps.last();
        lemma_mul_upper_bound(q.net_size, MAX_QTY as int, q.last_price, MAX_PRICE as int);
        vstd::arithmetic::mul::lemma_mul_nonnegative(q.net_size, q.last_price);
        lemma_mul_inequality(q.net_size, MAX_QTY as int, MAX_PRICE as int);
        assert((ps.len() - 1) * pnl_step() + pnl_step() == ps.len() * pnl_step())
            by (nonlinear_arith);
    }
}

impl SnapshotV {
    pub open spec fn wf(self) -> bool {
        &&& self.positions.len() <= MAX_POSITIONS
        &&& forall|i: int| 0 <= i < self.positions.len() ==> (#[trigger] self.positions[i]).wf()
        &&& forall|i: int, j: int|
            0 <= i < j < self.positions.len() ==> (#[trigger] self.positions[i]).instrument_id
                != (#[trigger] self.positions[j]).instrument_id
    }

    pub open spec fn has_instrument(self, id: u64) -> bool {
        exists|i: int|
            0 <= i < self.positions.len() && (#[trigger] self.positions[i]).instrument_id == id
    }

    pub open spec fn idx_of(self, id: u64) -> int {
        choose|i: int|
            0 <= i < self.positions.len() && (#[trigger] self.positions[i]).instrument_id == id
    }

    /// Account equity marked at the last known prices: cash plus all
    /// realized and unrealized profit and loss.
    pub open spec fn equity(self) -> int {
        self.balance + sum_pnl(self.positions)
    }
}

impl Position {
    /// Size-weighted average entry price; zero when flat.
    pub fn entry_price(&self) -> (r: u64)
        requires
            self@.wf(),
        ensures
            r as int == self@.entry_price(),
    {
        if self.net_size == 0 {
            0
        } else {
            proof {
                lemma_entry_bounded(self@.cost, self@.net_size);
            }
            (self.cost / (self.net_size as u128)) as u64
        }
    }

    /// Profit and loss of the open size, marked at the last known price.
    pub fn unrealized_pnl(&self) -> (r: i128)
        requires
            self@.wf(),
        ensures
            r as int == self@.unrealized_pnl(),
    {
        proof {
            lemma_mul_upper_bound(self@.net_size, MAX_QTY as int, self@.last_price, MAX_PRICE as int);
            vstd::arithmetic::mul::lemma_mul_nonnegative(self@.net_size, self@.last_price);
        }
        let market = (self.net_size as i128) * (self.last_price as i128);
        match self.direction {
            Direction::Long => market - (self.cost as i128),
            Direction::Short => (self.cost as i128) - market,
            Direction::Flat => 0,
        }
    }
}

impl AccountSnapshot {
    /// Equity marked at the last known prices.
    pub fn equity(&self) -> (r: i128)
        requires
            self@.wf(),
        ensures
            r as int == self@.equity(),
    {
        let n = self.positions.len();
        let mut acc: i128 = self.balance as i128;
        let mut i: usize = 0;
        while i < n
            invariant
                i <= n,
                n == self.positions@.len(),
                self@.wf(),
                acc == self.balance + sum_pnl(self@.positions.take(i as int)),
            decreases n - i,
        {
            proof {
                let prefix = self@.positions.take(i as int + 1);
                assert(prefix.drop_last() =~= self@.positions.take(i as int));
                assert(forall|k: int| 0 <= k < prefix.len() ==> (#[trigger] prefix[k]).wf());
                lemma_sum_pnl_bound(prefix);
                lemma_sum_pnl_bound(self@.positions.take(i as int));
                lemma_mul_inequality(prefix.len() as int, MAX_POSITIONS as int, pnl_step());
                lemma_mul_inequality(
                    self@.positions.take(i as int).len() as int,
                    MAX_POSITIONS as int,
                    pnl_step(),
                );
            }
            let p = &self.positions[i];
            assert(p@ == self@.positions[i as int]);
            let upnl = p.unrealized_pnl();
            acc = acc + upnl + p.realized_pnl;
            i = i + 1;
        }
        proof {
            assert(self@.positions.take(n as int) =~= self@.positions);
        }
        acc
    }

    /// The position held in an instrument, if the account tracks it.
    pub fn position(&self, instrument_id: u64) -> (r: Option<Position>)
        ensures
            r is Some <==> self@.has_instrument(instrument_id),
            match r {
                Some(p) => exists|i: int|
                    0 <= i < self@.positions.len() && (#[trigger] self@.positions[i]) == p@
                        && p.instrument_id == instrument_id,
                None => true,
            },
    {
        let n = self.positions.len();
        let mut i: usize = 0;
        while i < n
            invariant
                i <= n,
                n == self.positions@.len(),
                forall|k: int|
                    0 <= k < i ==> (#[trigger] self.positions@[k]).instrument_id != instrument_id,
            decreases n - i,
        {
            if self.positions[i].instrument_id == instrument_id {
                let p = self.positions[i];
                assert(self@.positions[i as int] == p@);
                return Some(p);
            }
            i = i + 1;
        }
        assert(forall|k: int|
            0 <= k < self@.positions.len() ==> (#[trigger] self@.positions[k]).instrument_id
                != instrument_id);
        None
    }
}

/// Stop-loss price for an executable entry price.
fn stop_from_entry(direction: Direction, entry: u64, stop_loss_bps: u32) -> (r: u64)
    requires
        entry <= MAX_PRICE,
        stop_loss_bps < BPS_DENOM,
    ensures
        r as int == stop_price(direction, entry as int, stop_loss_bps),
{
    proof {
        lemma_mul_upper_bound(
            entry as int,
            MAX_PRICE as int,
            (BPS_DENOM + stop_loss_bps as u64) as int,
            2 * BPS_DENOM as int,
        );
        vstd::arithmetic::mul::lemma_mul_nonnegative(
            entry as int,
            (BPS_DENOM + stop_loss_bps as u64) as int,
        );
        vstd::arithmetic::mul::lemma_mul_nonnegative(
            entry as int,
            (BPS_DENOM - stop_loss_bps as u64) as int,
        );
        lemma_mul_upper_bound(
            entry as int,
            MAX_PRICE as int,
            (BPS_DENOM - stop_loss_bps as u64) as int,
            2 * BPS_DENOM as int,
        );
    }
    match direction {
        Direction::Long => {
            let num = (entry as u128) * ((BPS_DENOM - stop_loss_bps as u64) as u128);
            let q = num / (BPS_DENOM as u128);
            proof {
                vstd::arithmetic::div_mod::lemma_div_nonincreasing(num as int, BPS_DENOM as int);
            }
            q as u64
        },
        Direction::Short => {
            let num = (entry as u128) * ((BPS_DENOM + stop_loss_bps as u64) as u128);
            let q = num / (BPS_DENOM as u128);
            proof {
                vstd::arithmetic::div_mod::lemma_div_nonincreasing(num as int, BPS_DENOM as int);
            }
            q as u64
        },
        Direction::Flat => 0,
    }
}

/// The position after one fill, as [`pos_after_fill`] says. Total for any
/// well-formed inputs; whether the result still fits the account's bounds is
/// the caller's check ([`fill_fits`]).
pub fn fill_position(p: &Position, f: &Fill, stop_loss_bps: u32) -> (q: Position)
    requires
        p@.wf(),
        fill_wf(*f),
        stop_loss_bps < BPS_DENOM,
    ensures
        q@ == pos_after_fill(p@, *f, stop_loss_bps),
{
    proof {
        lemma_mul_upper_bound(f.size as int, MAX_QTY as int, f.price as int, MAX_PRICE as int);
        vstd::arithmetic::mul::lemma_mul_nonnegative(f.size as int, f.price as int);
    }
    let direction = f.side.direction();
    if p.net_size == 0 || (direction == p.direction) {
        let size = p.net_size + f.size;
        let add_cost = (f.size as u128) * (f.price as u128);
        let cost = p.cost + add_cost;
        proof {
            lemma_mul_inequality(f.price as int, MAX_PRICE as int, f.size as int);
            assert(f.size as int * (f.price as int) == (f.price as int) * (f.size as int) && (
            f.size as int) * (MAX_PRICE as int) == (MAX_PRICE as int) * (f.size as int))
                by (nonlinear_arith);
            assert(cost as int <= (size as int) * (MAX_PRICE as int)) by (nonlinear_arith)
                requires
                    p@.cost <= p@.net_size * (MAX_PRICE as int),
                    (f.size as int) * (f.price as int) <= (f.size as int) * (MAX_PRICE as int),
                    cost as int == p@.cost + (f.size as int) * (f.price as int),
                    size as int == p@.net_size + f.size as int,
            ;
            lemma_entry_bounded(cost as int, size as int);
        }
        let entry = (cost / (size as u128)) as u64;
        let stop = stop_from_entry(direction, entry, stop_loss_bps);
        Position {
            instrument_id: p.instrument_id,
            direction,
            net_size: size,
            cost,
            stop_loss_price: stop,
            realized_pnl: p.realized_pnl,
            last_price: f.price,
        }
    } else if f.size < p.net_size {
        proof {
            lemma_mul_inequality(p@.net_size, MAX_QTY as int, MAX_PRICE as int);
            lemma_mul_upper_bound(
                p@.cost,
                (MAX_QTY as int) * (MAX_PRICE as int),
                f.size as int,
                MAX_QTY as int,
            );
            vstd::arithmetic::mul::lemma_mul_nonnegative(p@.cost, f.size as int);
            lemma_prorate_upper(p@.cost, p@.net_size, f.size as int, MAX_PRICE as int);
        }
        let removed = (p.cost * (f.size as u128)) / (p.net_size as u128);
        let size = p.net_size - f.size;
        let cost = p.cost - removed;
        proof {
            lemma_entry_bounded(cost as int, size as int);
        }
        let entry = (cost / (size as u128)) as u64;
        let stop = stop_from_entry(p.direction, entry, stop_loss_bps);
        let proceeds = (f.size as u128) * (f.price as u128);
        let delta: i128 = if p.direction == Direction::Long {
            (proceeds as i128) - (removed as i128)
        } else {
            (removed as i128) - (proceeds as i128)
        };
        Position {
            instrument_id: p.instrument_id,
            direction: p.direction,
            net_size: size,
            cost,
            stop_loss_price: stop,
            realized_pnl: p.realized_pnl + delta,
            last_price: f.price,
        }
    } else if f.size == p.net_size {
        let proceeds = (f.size as u128) * (f.price as u128);
        proof {
            lemma_mul_inequality(p@.net_size, MAX_QTY as int, MAX_PRICE as int);
        }
        let delta: i128 = if p.direction == Direction::Long {
            (proceeds as i128) - (p.cost as i128)
        } else {
            (p.cost as i128) - (proceeds as i128)
        };
        Position {
            instrument_id: p.instrument_id,
            direction: Direction::Flat,
            net_size: 0,
            cost: 0,
            stop_loss_price: 0,
            realized_pnl: p.realized_pnl + delta,
            last_price: f.price,
        }
    } else {
        let rem = f.size - p.net_size;
        proof {
            lemma_mul_upper_bound(rem as int, MAX_QTY as int, f.price as int, MAX_PRICE as int);
            vstd::arithmetic::mul::lemma_mul_nonnegative(rem as int, f.price as int);
            lemma_mul_inequality(f.price as int, MAX_PRICE as int, rem as int);
            assert((rem as int) * (f.price as int) == (f.price as int) * (rem as int) && (
            rem as int) * (MAX_PRICE as int) == (MAX_PRICE as int) * (rem as int))
                by (nonlinear_arith);
            lemma_mul_upper_bound(p@.net_size, MAX_QTY as int, f.price as int, MAX_PRICE as int);
            vstd::arithmetic::mul::lemma_mul_nonnegative(p@.net_size, f.price as int);
            lemma_mul_inequality(p@.net_size, MAX_QTY as int, MAX_PRICE as int);
        }
        let cost = (rem as u128) * (f.price as u128);
        proof {
            lemma_entry_bounded(cost as int, rem as int);
        }
        let entry = (cost / (rem as u128)) as u64;
        let stop = stop_from_entry(direction, entry, stop_loss_bps);
        let proceeds = (p.net_size as u128) * (f.price as u128);
        let delta: i128 = if p.direction == Direction::Long {
            (proceeds as i128) - (p.cost as i128)
        } else {
            (p.cost as i128) - (proceeds as i128)
        };
        Position {
            instrument_id: p.instrument_id,
            direction,
            net_size: rem,
            cost,
            stop_loss_price: stop,
            realized_pnl: p.realized_pnl + delta,
            last_price: f.price,
        }
    }
}

/// A fresh, flat position record for a newly registered instrument.
pub open spec fn flat_position(instrument_id: u64) -> PositionV {
    PositionV {
        instrument_id,
        direction: Direction::Flat,
        net_size: 0,
        cost: 0,
        stop_loss_price: 0,
        realized_pnl: 0,
        last_price: 0,
    }
}

/// Balances, open positions and realized/unrealized profit and loss; the
/// single writer of all position data.
pub struct AccountState {
    balance: u64,
    positions: Vec<Position>,
    stop_loss: u32,
    last_update: u64,
}

impl View for AccountState {
    type V = AccountV;

    closed spec fn view(&self) -> AccountV {
        AccountV {
            balance: self.balance,
            positions: self.positions@.map_values(|p: Position| p@),
            stop_loss: self.stop_loss,
            last_update: self.last_update,
        }
    }
}

impl AccountV {
    pub open spec fn wf(self) -> bool {
        &&& self.positions.len() <= MAX_POSITIONS
        &&& forall|i: int| 0 <= i < self.positions.len() ==> (#[trigger] self.positions[i]).wf()
        &&& forall|i: int|
            0 <= i < self.positions.len() ==> (#[trigger] self.positions[i]).stop_loss_price
                == stop_price(
                self.positions[i].direction,
                self.positions[i].entry_price(),
                self.stop_loss,
            )
        &&& forall|i: int, j: int|
            0 <= i < j < self.positions.len() ==> (#[trigger] self.positions[i]).instrument_id
                != (#[trigger] self.positions[j]).instrument_id
        &&& self.stop_loss < BPS_DENOM
    }

    pub open spec fn has_instrument(self, id: u64) -> bool {
        exists|i: int|
            0 <= i < self.positions.len() && (#[trigger] self.positions[i]).instrument_id == id
    }

    pub open spec fn idx_of(self, id: u64) -> int {
        choose|i: int|
            0 <= i < self.positions.len() && (#[trigger] self.positions[i]).instrument_id == id
    }

    /// The machine can hold the result of this fill (vacuous for an unknown
    /// instrument, where the fill is refused before any arithmetic).
    pub open spec fn can_apply(self, f: Fill) -> bool {
        self.has_instrument(f.instrument_id) ==> fill_fits(
            self.positions[self.idx_of(f.instrument_id)],
            f,
            self.stop_loss,
        )
    }
}

impl AccountState {
    /// A fresh account holding only cash.
    pub fn new(initial_balance: u64, stop_loss_bps: u32) -> (s: Self)
        requires
            stop_loss_bps < BPS_DENOM,
        ensures
            s@.wf(),
            s@.balance == initial_balance,
            s@.positions == Seq::<PositionV>::empty(),
            s@.stop_loss == stop_loss_bps,
            s@.last_update == 0,
    {
        let s = AccountState {
            balance: initial_balance,
            positions: Vec::new(),
            stop_loss: stop_loss_bps,
            last_update: 0,
        };
        proof {
            assert(s@.positions =~= Seq::<PositionV>::empty());
        }
        s
    }

    /// Register an instrument so fills in it have a record to land in.
    /// Idempotent; refuses (returns false) only when the account is at its
    /// instrument capacity.
    pub fn register_instrument(&mut self, instrument_id: u64) -> (r: bool)
        requires
            old(self)@.wf(),
        ensures
            final(self)@.wf(),
            final(self)@.balance == old(self)@.balance,
            final(self)@.stop_loss == old(self)@.stop_loss,
            final(self)@.last_update == old(self)@.last_update,
            old(self)@.has_instrument(instrument_id) ==> r && final(self)@ == old(self)@,
            !old(self)@.has_instrument(instrument_id) && old(self)@.positions.len()
                < MAX_POSITIONS ==> r && final(self)@.positions == old(self)@.positions.push(
                flat_position(instrument_id),
            ),
            !old(self)@.has_instrument(instrument_id) && old(self)@.positions.len()
                == MAX_POSITIONS ==> !r && final(self)@ == old(self)@,
            r <==> (old(self)@.has_instrument(instrument_id) || old(self)@.positions.len()
                < MAX_POSITIONS),
    {
        let n = self.positions.len();
        let mut i: usize = 0;
        while i < n
            invariant
                i <= n,
                n == self.positions@.len(),
                self@ == old(self)@,
                self@.wf(),
                forall|k: int|
                    0 <= k < i ==> (#[trigger] self.positions@[k]).instrument_id != instrument_id,
            decreases n - i,
        {
            if self.positions[i].instrument_id == instrument_id {
                proof {
                    assert(self@.positions[i as int].instrument_id == instrument_id);
                }
                return true;
            }
            i = i + 1;
        }
        proof {
            assert(forall|k: int|
                0 <= k < self@.positions.len() ==> (#[trigger] self@.positions[k]).instrument_id
                    != instrument_id);
        }
        if n < MAX_POSITIONS {
            self.positions.push(
                Position {
                    instrument_id,
                    direction: Direction::Flat,
                    net_size: 0,
                    cost: 0,
                    stop_loss_price: 0,
                    realized_pnl: 0,
                    last_price: 0,
                },
            );
            proof {
                assert(self@.positions =~= old(self)@.positions.push(flat_position(instrument_id)));
            }
            true
        } else {
            false
        }
    }

    /// Read-only snapshot of the whole account, timestamped with the last
    /// update that was folded in.
    pub fn snapshot(&self) -> (snap: AccountSnapshot)
        requires
            self@.wf(),
        ensures
            snap@.balance == self@.balance,
            snap@.positions == self@.positions,
            snap@.timestamp == self@.last_update,
            snap@.wf(),
    {
        let n = self.positions.len();
        let mut ps: Vec<Position> = Vec::new();
        let mut i: usize = 0;
        while i < n
            invariant
                i <= n,
                n == self.positions@.len(),
                ps@.len() == i,
                forall|k: int| 0 <= k < i ==> ps@[k] == self.positions@[k],
            decreases n - i,
        {
            ps.push(self.positions[i]);
            i = i + 1;
        }
        let snap = AccountSnapshot { balance: self.balance, positions: ps, timestamp: self.last_update };
        proof {
            assert(snap@.positions =~= self@.positions);
        }
        snap
    }

    /// Whether the machine can hold the result of this fill; callers check
    /// this before [`AccountState::apply_fill`].
    pub fn can_apply_fill(&self, fill: &Fill) -> (r: bool)
        requires
            self@.wf(),
            fill_wf(*fill),
        ensures
            r == self@.can_apply(*fill),
    {
        let n = self.positions.len();
        let mut i: usize = 0;
        while i < n
            invariant
                i <= n,
                n == self.positions@.len(),
                self@.wf(),
                fill_wf(*fill),
                forall|k: int|
                    0 <= k < i ==> (#[trigger] self.positions@[k]).instrument_id
                        != fill.instrument_id,
            decreases n - i,
        {
            if self.positions[i].instrument_id == fill.instrument_id {
                proof {
                    assert(self@.positions[i as int].instrument_id == fill.instrument_id);
                    let j = self@.idx_of(fill.instrument_id);
                    if j != i as int {
                        assert(self@.positions[j].instrument_id == fill.instrument_id);
                        assert(false);
                    }
                }
                let q = fill_position(&self.positions[i], fill, self.stop_loss);
                let fits_size = q.net_size <= MAX_QTY;
                let fits_pnl = -MAX_PNL <= q.realized_pnl && q.realized_pnl <= MAX_PNL;
                return fits_size && fits_pnl;
            }
            i = i + 1;
        }
        proof {
            assert(forall|k: int|
                0 <= k < self@.positions.len() ==> (#[trigger] self@.positions[k]).instrument_id
                    != fill.instrument_id);
        }
        true
    }

    /// Fold one fill into the account: the sole mutation entry point for
    /// position data. Recomputes the weighted-average entry price, the net
    /// size, the stop-loss price and the realized profit, and stamps the
    /// account with the fill's timestamp. A fill in an instrument that was
    /// never registered fails with `Inconsistent` and changes nothing.
    pub fn apply_fill(&mut self, fill: &Fill) -> (r: Result<(), AccountError>)
        requires
            old(self)@.wf(),
            fill_wf(*fill),
            old(self)@.can_apply(*fill),
        ensures
            final(self)@.wf(),
            final(self)@.balance == old(self)@.balance,
            final(self)@.stop_loss == old(self)@.stop_loss,
            !old(self)@.has_instrument(fill.instrument_id) ==> r == Err::<(), AccountError>(
                AccountError::Inconsistent,
            ) && final(self)@ == old(self)@,
            old(self)@.has_instrument(fill.instrument_id) ==> {
                let idx = old(self)@.idx_of(fill.instrument_id);
                &&& r == Ok::<(), AccountError>(())
                &&& final(self)@.positions == old(self)@.positions.update(
                    idx,
                    pos_after_fill(old(self)@.positions[idx], *fill, old(self)@.stop_loss),
                )
                &&& final(self)@.last_update == fill.timestamp
            },
    {
        let n = self.positions.len();
        let mut i: usize = 0;
        while i < n
            invariant
                i <= n,
                n == self.positions@.len(),
                self@.wf(),
                fill_wf(*fill),
                self@ == old(self)@,
                self@.can_apply(*fill),
                forall|k: int|
                    0 <= k < i ==> (#[trigger] self.positions@[k]).instrument_id
                        != fill.instrument_id,
            decreases n - i,
        {
            if self.positions[i].instrument_id == fill.instrument_id {
                proof {
                    assert(self@.positions[i as int].instrument_id == fill.instrument_id);
                    let j = self@.idx_of(fill.instrument_id);
                    if j != i as int {
                        assert(self@.positions[j].instrument_id == fill.instrument_id);
                        assert(false);
                    }
                    lemma_fill_preserves_wf(self@.positions[i as int], *fill, self@.stop_loss);
                }
                let q = fill_position(&self.positions[i], fill, self.stop_loss);
                self.positions.set(i, q);
                self.last_update = fill.timestamp;
                proof {
                    let idx = old(self)@.idx_of(fill.instrument_id);
                    assert(self@.positions =~= old(self)@.positions.update(
                        idx,
                        pos_after_fill(old(self)@.positions[idx], *fill, old(self)@.stop_loss),
                    ));
                }
                return Ok(());
            }
            i = i + 1;
        }
        proof {
            assert(forall|k: int|
                0 <= k < self@.positions.len() ==> (#[trigger] self@.positions[k]).instrument_id
                    != fill.instrument_id);
        }
        Err(AccountError::Inconsistent)
    }
}

} // verus!
