//! End-to-end scenarios over the decision pipeline: signal evaluation with
//! hysteresis, risk gating, stop-loss monitoring and account bookkeeping.

use engine::account::{AccountError, AccountState, Fill};
use engine::config::ThresholdsConfig;
use engine::data::{FeedError, Tick};
use engine::execution::{stop_loss_order, stop_loss_triggered};
use engine::risk::{RejectReason, RiskGate};
use engine::signal::SignalEvaluator;
use engine::types::{Direction, Side};

fn thresholds() -> ThresholdsConfig {
    ThresholdsConfig { meme_drop_pct: 3000, rsi_max: 4500, support_low: 160, support_high: 162 }
}

fn tick(ts: u64, price: u64, rsi: Option<u32>) -> Tick {
    Tick { instrument_id: 1, timestamp: ts, price, volume: 1, rsi }
}

#[test]
fn drop_from_high_fires_long_intent_once() {
    // Recent high 230, price 161 (a 30% drop), RSI 40, inside [160, 162]:
    // one long intent fires; the same conditions one tick later do not
    // re-fire while the evaluator is disarmed.
    let mut ev = SignalEvaluator::new(1, thresholds(), 10, 3);
    assert_eq!(ev.evaluate(&tick(1, 230, None)).unwrap(), None);
    assert_eq!(ev.evaluate(&tick(2, 230, None)).unwrap(), None);
    let fired = ev.evaluate(&tick(3, 161, Some(4000))).unwrap();
    let intent = fired.expect("all three conditions hold, so the intent must fire");
    assert_eq!(intent.direction, Direction::Long);
    assert_eq!(intent.instrument_id, 1);
    assert_eq!(intent.size, 10);
    assert_eq!(intent.price, 161);
    assert_eq!(intent.generated_at, 3);
    assert!(intent.rationale.drop_fired && intent.rationale.rsi_fired && intent.rationale.band_fired);
    // Window is now [230, 230, 161]; the high of 230 is still in it, so all
    // three conditions still hold — only hysteresis stops the repeat.
    assert_eq!(ev.evaluate(&tick(4, 161, Some(4000))).unwrap(), None);
}

#[test]
fn evaluator_rearms_after_price_leaves_band() {
    let mut ev = SignalEvaluator::new(1, thresholds(), 10, 4);
    assert_eq!(ev.evaluate(&tick(1, 230, None)).unwrap(), None);
    assert_eq!(ev.evaluate(&tick(2, 230, None)).unwrap(), None);
    assert_eq!(ev.evaluate(&tick(3, 230, None)).unwrap(), None);
    assert!(ev.evaluate(&tick(4, 161, Some(4000))).unwrap().is_some());
    // Price leaves the band upward: no intent, but the evaluator re-arms.
    assert_eq!(ev.evaluate(&tick(5, 163, Some(4000))).unwrap(), None);
    // Conditions return: a second intent may fire now.
    assert!(ev.evaluate(&tick(6, 161, Some(4000))).unwrap().is_some());
}

#[test]
fn no_intent_before_window_is_full() {
    let mut ev = SignalEvaluator::new(1, thresholds(), 10, 3);
    assert_eq!(ev.evaluate(&tick(1, 230, None)).unwrap(), None);
    // Qualifying tick, but only two prices of a three-tick lookback seen.
    assert_eq!(ev.evaluate(&tick(2, 161, Some(4000))).unwrap(), None);
}

#[test]
fn out_of_order_and_malformed_ticks_are_dropped() {
    let mut ev = SignalEvaluator::new(1, thresholds(), 10, 3);
    assert_eq!(ev.evaluate(&tick(5, 200, None)).unwrap(), None);
    assert_eq!(ev.evaluate(&tick(5, 201, None)), Err(FeedError::OutOfOrder));
    assert_eq!(ev.evaluate(&tick(4, 201, None)), Err(FeedError::OutOfOrder));
    assert_eq!(ev.evaluate(&tick(6, 0, None)), Err(FeedError::Malformed));
    assert_eq!(ev.evaluate(&tick(6, 200, Some(20000))), Err(FeedError::Malformed));
    let other = Tick { instrument_id: 2, timestamp: 7, price: 200, volume: 1, rsi: None };
    assert_eq!(ev.evaluate(&other), Err(FeedError::WrongInstrument));
    // The dropped ticks left the evaluator usable and its clock unmoved.
    assert_eq!(ev.evaluate(&tick(6, 200, None)).unwrap(), None);
}

#[test]
fn stop_loss_price_and_breach_close_order() {
    // Entry 160 with a 5% stop must place the stop at 152; a tick at 151
    // must produce a closing order, independent of any evaluator state.
    let mut account = AccountState::new(1_000_000, 500);
    assert!(account.register_instrument(1));
    let fill = Fill { instrument_id: 1, side: Side::Buy, size: 10, price: 160, timestamp: 1 };
    assert!(account.can_apply_fill(&fill));
    account.apply_fill(&fill).unwrap();
    let snap = account.snapshot();
    let pos = snap.position(1).unwrap();
    assert_eq!(pos.stop_loss_price, 152);
    assert!(!stop_loss_triggered(&pos, 153));
    assert!(stop_loss_triggered(&pos, 151));
    let close = stop_loss_order(&pos, 151, 77).expect("breached stop must issue a close order");
    assert_eq!(close.side, Side::Sell);
    assert_eq!(close.requested_size, 10);
    assert_eq!(close.instrument_id, 1);
    assert!(stop_loss_order(&pos, 153, 78).is_none());
}

#[test]
fn fill_for_unknown_instrument_is_inconsistent_and_mutates_nothing() {
    let mut account = AccountState::new(50_000, 500);
    assert!(account.register_instrument(1));
    let good = Fill { instrument_id: 1, side: Side::Buy, size: 5, price: 100, timestamp: 1 };
    account.apply_fill(&good).unwrap();
    let before = account.snapshot();
    let stray = Fill { instrument_id: 9, side: Side::Buy, size: 5, price: 100, timestamp: 2 };
    assert_eq!(account.apply_fill(&stray), Err(AccountError::Inconsistent));
    let after = account.snapshot();
    assert_eq!(after.balance, before.balance);
    assert_eq!(after.timestamp, before.timestamp);
    assert_eq!(after.positions.len(), before.positions.len());
    let (pb, pa) = (before.position(1).unwrap(), after.position(1).unwrap());
    assert_eq!(pa.net_size, pb.net_size);
    assert_eq!(pa.cost, pb.cost);
    assert_eq!(pa.realized_pnl, pb.realized_pnl);
    assert_eq!(pa.stop_loss_price, pb.stop_loss_price);
}

#[test]
fn risk_gate_rejects_opposite_direction_position() {
    let mut account = AccountState::new(1_000_000, 500);
    assert!(account.register_instrument(1));
    let short = Fill { instrument_id: 1, side: Side::Sell, size: 5, price: 100, timestamp: 1 };
    account.apply_fill(&short).unwrap();
    let gate = RiskGate::new(engine::config::RiskConfig { max_trade_risk: 500, stop_loss: 500 });
    let mut ev = SignalEvaluator::new(1, thresholds(), 10, 2);
    ev.evaluate(&tick(1, 230, None)).unwrap();
    let intent = ev.evaluate(&tick(2, 161, Some(4000))).unwrap().unwrap();
    let decision = gate.check(&intent, &account.snapshot());
    assert!(!decision.approved);
    assert_eq!(decision.reason_if_rejected, Some(RejectReason::OppositePosition));
}
