//! Signal evaluation: a bounded rolling price window per instrument, the
//! three-way threshold policy, and edge-triggered hysteresis.
//!
//! A long intent fires only when all three conditions hold at once: the drop
//! from the window high reaches the configured threshold, RSI is at or below
//! its bound, and the price sits inside the support band. After a fire the
//! evaluator disarms; it re-arms only when a later tick shows the price
//! outside the band or RSI above its bound, so the same persisting condition
//! never re-triggers tick after tick.
//!
//! The window length is chosen at construction (it is the indicator
//! lookback, not fixed upstream); an intent can fire only once the window is
//! full, so no indicator ever reads prices that were never seen (and never
//! ones newer than the tick under evaluation).

use vstd::prelude::*;

use crate::config::{thresholds_wf, ThresholdsConfig};
use crate::data::{tick_wf, FeedError, Tick};
use crate::indicators::{
    compute_rsi,
    drop_cond,
    drop_exceeds,
    lemma_seq_max_ge,
    rsi_spec,
    seq_max,
    window_high,
};
use crate::types::{Direction, MAX_QTY, MAX_WINDOW, RSI_DENOM};

verus! {

/// Which thresholds fired when an intent was emitted. An intent exists only
/// when all three did; the record keeps the decision chain reconstructible.
#[derive(Clone, Copy, Debug, PartialEq, Eq, Structural)]
pub struct Rationale {
    pub drop_fired: bool,
    pub rsi_fired: bool,
    pub band_fired: bool,
}

/// A proposed trade, produced by the evaluator and consumed exactly once by
/// the risk gate. Never mutated after creation.
#[derive(Clone, Copy, Debug, PartialEq, Eq, Structural)]
pub struct TradeIntent {
    pub instrument_id: u64,
    pub direction: Direction,
    /// Suggested quantity, before risk adjustment.
    pub size: u64,
    /// Price of the tick that generated the intent.
    pub price: u64,
    pub rationale: Rationale,
    pub generated_at: u64,
}

/// Mathematical state of an evaluator: its window as a sequence plus the
/// hysteresis flag. `armed` means a qualifying tick may fire.
pub struct EvalView {
    pub instrument_id: u64,
    pub thresholds: ThresholdsConfig,
    pub intent_size: u64,
    pub window_cap: int,
    pub window: Seq<u64>,
    pub last_ts: Option<u64>,
    pub armed: bool,
}

/// Evaluates ticks of one instrument into trade intents.
pub struct SignalEvaluator {
    instrument_id: u64,
    thresholds: ThresholdsConfig,
    intent_size: u64,
    window_cap: usize,
    window: Vec<u64>,
    last_ts: Option<u64>,
    armed: bool,
}

impl View for SignalEvaluator {
    type V = EvalView;

    closed spec fn view(&self) -> EvalView {
        EvalView {
            instrument_id: self.instrument_id,
            thresholds: self.thresholds,
            intent_size: self.intent_size,
            window_cap: self.window_cap as int,
            window: self.window@,
            last_ts: self.last_ts,
            armed: self.armed,
        }
    }
}

impl EvalView {
    pub open spec fn wf(self) -> bool {
        &&& 2 <= self.window_cap <= MAX_WINDOW
        &&& self.window.len() <= self.window_cap
        &&& thresholds_wf(self.thresholds)
        &&& 0 < self.intent_size <= MAX_QTY
    }

    /// The tick is usable: right instrument, well formed, strictly newer
    /// than the last accepted tick.
    pub open spec fn accepts(self, t: Tick) -> bool {
        &&& t.instrument_id == self.instrument_id
        &&& tick_wf(t)
        &&& match self.last_ts {
            Some(ts) => t.timestamp > ts,
            None => true,
        }
    }

    /// Why a tick is dropped: the first reason, checked in this order.
    pub open spec fn drop_reason(self, t: Tick) -> FeedError {
        if t.instrument_id != self.instrument_id {
            FeedError::WrongInstrument
        } else if !tick_wf(t) {
            FeedError::Malformed
        } else {
            FeedError::OutOfOrder
        }
    }

    /// The rolling window after taking this tick's price, oldest dropped
    /// once the window is at capacity.
    pub open spec fn next_window(self, t: Tick) -> Seq<u64> {
        let w = self.window.push(t.price);
        if w.len() > self.window_cap {
            w.subrange(1, w.len() as int)
        } else {
            w
        }
    }

    /// RSI used for this tick: the feed's snapshot when it carries one, else
    /// the engine's own, computed over the updated window.
    pub open spec fn effective_rsi(self, t: Tick) -> int {
        match t.rsi {
            Some(r) => r as int,
            None => rsi_spec(self.next_window(t)),
        }
    }

    pub open spec fn in_band(self, price: u64) -> bool {
        self.thresholds.support_low <= price <= self.thresholds.support_high
    }

    /// Hysteresis reset: price out of the support band or RSI above its bound.
    pub open spec fn reset_cond(self, t: Tick) -> bool {
        !self.in_band(t.price) || self.effective_rsi(t) > self.thresholds.rsi_max as int
    }

    /// All three entry conditions at once, over a full window.
    pub open spec fn fire_cond(self, t: Tick) -> bool {
        &&& self.next_window(t).len() == self.window_cap
        &&& drop_cond(seq_max(self.next_window(t)), t.price, self.thresholds.meme_drop_pct)
        &&& self.effective_rsi(t) <= self.thresholds.rsi_max as int
        &&& self.in_band(t.price)
    }

    /// The intent emitted for a qualifying tick.
    pub open spec fn intent_of(self, t: Tick) -> TradeIntent {
        TradeIntent {
            instrument_id: self.instrument_id,
            direction: Direction::Long,
            size: self.intent_size,
            price: t.price,
            rationale: Rationale { drop_fired: true, rsi_fired: true, band_fired: true },
            generated_at: t.timestamp,
        }
    }

    /// One evaluation step: state after the tick and the intent it emits, if
    /// any. A dropped tick leaves the state untouched.
    pub open spec fn step(self, t: Tick) -> (EvalView, Option<TradeIntent>) {
        if !self.accepts(t) {
            (self, None)
        } else {
            let armed1 = self.armed || self.reset_cond(t);
            let fire = armed1 && self.fire_cond(t);
            let next = EvalView {
                window: self.next_window(t),
                last_ts: Some(t.timestamp),
                armed: armed1 && !fire,
                ..self
            };
            if fire {
                (next, Some(self.intent_of(t)))
            } else {
                (next, None)
            }
        }
    }
}

impl SignalEvaluator {
    /// A fresh evaluator with an empty window. It starts armed: the first
    /// qualifying tick fires.
    pub fn new(instrument_id: u64, thresholds: ThresholdsConfig, intent_size: u64, window_cap: usize) -> (s:
        Self)
        requires
            2 <= window_cap <= MAX_WINDOW,
            thresholds_wf(thresholds),
            0 < intent_size <= MAX_QTY,
        ensures
            s@.wf(),
            s@.instrument_id == instrument_id,
            s@.thresholds == thresholds,
            s@.intent_size == intent_size,
            s@.window_cap == window_cap as int,
            s@.window == Seq::<u64>::empty(),
            s@.last_ts is None,
            s@.armed,
    {
        let s = SignalEvaluator {
            instrument_id,
            thresholds,
            intent_size,
            window_cap,
            window: Vec::new(),
            last_ts: None,
            armed: true,
        };
        proof {
            assert(s@.window =~= Seq::<u64>::empty());
        }
        s
    }

    /// Consume one tick: update the rolling window, recompute indicators,
    /// apply the threshold policy under hysteresis. A dropped tick returns
    /// the reason and changes nothing; an accepted tick advances the state
    /// exactly as [`EvalView::step`] says.
    pub fn evaluate(&mut self, tick: &Tick) -> (r: Result<Option<TradeIntent>, FeedError>)
        requires
            old(self)@.wf(),
        ensures
            final(self)@.wf(),
            !old(self)@.accepts(*tick) ==> r == Err::<Option<TradeIntent>, FeedError>(
                old(self)@.drop_reason(*tick),
            ) && final(self)@ == old(self)@,
            old(self)@.accepts(*tick) ==> r == Ok::<Option<TradeIntent>, FeedError>(
                old(self)@.step(*tick).1,
            ) && final(self)@ == old(self)@.step(*tick).0,
    {
        if tick.instrument_id != self.instrument_id {
            return Err(FeedError::WrongInstrument);
        }
        if tick.price == 0 || tick.price > crate::types::MAX_PRICE {
            return Err(FeedError::Malformed);
        }
        match tick.rsi {
            Some(r) => {
                if r > RSI_DENOM {
                    return Err(FeedError::Malformed);
                }
            },
            None => {},
        }
        match self.last_ts {
            Some(ts) => {
                if tick.timestamp <= ts {
                    return Err(FeedError::OutOfOrder);
                }
            },
            None => {},
        }
        let ghost pre = self@;
        self.window.push(tick.price);
        if self.window.len() > self.window_cap {
            self.window.remove(0);
            proof {
                assert(self.window@ =~= pre.next_window(*tick));
            }
        } else {
            proof {
                assert(self.window@ =~= pre.next_window(*tick));
            }
        }
        let rsi: u32 = match tick.rsi {
            Some(r) => r,
            None => compute_rsi(&self.window),
        };
        let in_band = self.thresholds.support_low <= tick.price && tick.price
            <= self.thresholds.support_high;
        let reset = !in_band || rsi > self.thresholds.rsi_max;
        if !self.armed && reset {
            self.armed = true;
        }
        let full = self.window.len() == self.window_cap;
        let high = window_high(&self.window);
        proof {
            assert(self.window@.last() == tick.price);
            lemma_seq_max_ge(self.window@, self.window@.len() - 1);
        }
        let dropped_enough = drop_exceeds(high, tick.price, self.thresholds.meme_drop_pct);
        let fire = self.armed && full && dropped_enough && rsi <= self.thresholds.rsi_max
            && in_band;
        self.last_ts = Some(tick.timestamp);
        if fire {
            self.armed = false;
            let intent = TradeIntent {
                instrument_id: self.instrument_id,
                direction: Direction::Long,
                size: self.intent_size,
                price: tick.price,
                rationale: Rationale { drop_fired: true, rsi_fired: true, band_fired: true },
                generated_at: tick.timestamp,
            };
            Ok(Some(intent))
        } else {
            Ok(None)
        }
    }
}

/// A disarmed evaluator cannot fire: a tick that would re-arm it (price out
/// of the band or RSI too high) contradicts the very conditions a fire
/// needs, so arming and firing never happen on the same tick.
pub proof fn lemma_no_fire_when_disarmed(v: EvalView, t: Tick)
    requires
        !v.armed,
    ensures
        v.step(t).1 is None,
{
}

/// Firing needs an armed evaluator and leaves it disarmed.
pub proof fn lemma_fire_disarms(v: EvalView, t: Tick)
    requires
        v.step(t).1 is Some,
    ensures
        v.armed,
        !v.step(t).0.armed,
{
}

/// The only way a disarmed evaluator re-arms is an accepted tick that shows
/// the hysteresis-reset condition.
pub proof fn lemma_arming_needs_reset(v: EvalView, t: Tick)
    requires
        !v.armed,
        v.step(t).0.armed,
    ensures
        v.accepts(t),
        v.reset_cond(t),
{
}

/// The evaluator state after a whole sequence of ticks.
pub open spec fn run_steps(v: EvalView, ts: Seq<Tick>) -> EvalView
    decreases ts.len(),
{
    if ts.len() == 0 {
        v
    } else {
        run_steps(v, ts.drop_last()).step(ts.last()).0
    }
}

/// An intent is emitted at position `i` of the tick sequence.
pub open spec fn emits_at(v: EvalView, ts: Seq<Tick>, i: int) -> bool {
    run_steps(v, ts.take(i)).step(ts[i]).1 is Some
}

/// The tick at position `i` is accepted and shows the hysteresis-reset
/// condition in the state it meets.
pub open spec fn resets_at(v: EvalView, ts: Seq<Tick>, i: int) -> bool {
    let s = run_steps(v, ts.take(i));
    s.accepts(ts[i]) && s.reset_cond(ts[i])
}

proof fn lemma_emit_disarms_after(v: EvalView, ts: Seq<Tick>, i: int)
    requires
        0 <= i < ts.len(),
        emits_at(v, ts, i),
    ensures
        !run_steps(v, ts.take(i + 1)).armed,
{
    assert(ts.take(i + 1).drop_last() =~= ts.take(i));
    assert(ts.take(i + 1).last() == ts[i]);
    lemma_fire_disarms(run_steps(v, ts.take(i)), ts[i]);
}

proof fn lemma_stays_disarmed(v: EvalView, ts: Seq<Tick>, i: int, m: int)
    requires
        0 <= i,
        i + 1 <= m <= ts.len(),
        !run_steps(v, ts.take(i + 1)).armed,
        forall|k: int| i < k < m ==> !resets_at(v, ts, k),
    ensures
        !run_steps(v, ts.take(m)).armed,
    decreases m - i,
{
    if m > i + 1 {
        lemma_stays_disarmed(v, ts, i, m - 1);
        assert(ts.take(m).drop_last() =~= ts.take(m - 1));
        assert(ts.take(m).last() == ts[m - 1]);
        let s = run_steps(v, ts.take(m - 1));
        if run_steps(v, ts.take(m)).armed {
            lemma_arming_needs_reset(s, ts[m - 1]);
            assert(resets_at(v, ts, m - 1));
            assert(false);
        }
    }
}

/// Hysteresis: over any tick sequence, the evaluator never emits two
/// intents without an accepted tick in between that shows the reset
/// condition (price out of the support band or RSI above its bound). With
/// the evaluator emitting long intents only, this is exactly: no two
/// consecutive same-direction intents without an intervening reset.
pub proof fn lemma_hysteresis(v: EvalView, ts: Seq<Tick>, i: int, j: int)
    requires
        0 <= i < j < ts.len(),
        emits_at(v, ts, i),
        emits_at(v, ts, j),
    ensures
        exists|k: int| i < k < j && resets_at(v, ts, k),
{
    lemma_emit_disarms_after(v, ts, i);
    if !(exists|k: int| i < k < j && resets_at(v, ts, k)) {
        assert(forall|k: int| i < k < j ==> !resets_at(v, ts, k));
        lemma_stays_disarmed(v, ts, i, j);
        lemma_no_fire_when_disarmed(run_steps(v, ts.take(j)), ts[j]);
        assert(false);
    }
}

} // verus!
