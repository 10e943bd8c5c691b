//! Unit checks of the pieces: indicator arithmetic, the risk gate's exact
//! adjustments, the account's weighted-average and round-trip bookkeeping,
//! the order state machine, the retry policy, supervision, configuration.

use engine::account::{AccountSnapshot, AccountState, Fill};
use engine::config::{
    Config,
    ConfigError,
    ExchangeConfig,
    RiskConfig,
    SymbolsConfig,
    ThresholdsConfig,
};
use engine::execution::{
    retry_decision,
    Order,
    OrderStatus,
    OrderUpdateError,
    RetryDecision,
    SubmitError,
};
use engine::indicators::{compute_rsi, drop_exceeds, window_high};
use engine::risk::{RejectReason, RiskGate};
use engine::signal::{Rationale, TradeIntent};
use engine::supervisor::{supervise, Component, EngineEvent};
use engine::types::{Direction, Side};

#[test]
fn rsi_is_scaled_gain_share() {
    // Moves +10 and -5: RSI = 10000 * 10 / 15 = 6666 hundredths.
    assert_eq!(compute_rsi(&vec![100, 110, 105]), 6666);
    // No movement at all reads as the top of the range.
    assert_eq!(compute_rsi(&vec![100, 100, 100]), 10000);
    assert_eq!(compute_rsi(&vec![]), 10000);
    assert_eq!(compute_rsi(&vec![100]), 10000);
    // Only losses: RSI 0.
    assert_eq!(compute_rsi(&vec![100, 90, 80]), 0);
}

#[test]
fn drop_threshold_is_exact_at_the_boundary() {
    // (230 - 161) / 230 is exactly 30%; 162 falls just short.
    assert!(drop_exceeds(230, 161, 3000));
    assert!(!drop_exceeds(230, 162, 3000));
    assert!(drop_exceeds(230, 160, 3000));
    assert_eq!(window_high(&vec![210, 230, 161]), 230);
}

fn plain_intent(size: u64, price: u64) -> TradeIntent {
    TradeIntent {
        instrument_id: 1,
        direction: Direction::Long,
        size,
        price,
        rationale: Rationale { drop_fired: true, rsi_fired: true, band_fired: true },
        generated_at: 1,
    }
}

fn cash_snapshot(balance: u64) -> AccountSnapshot {
    AccountSnapshot { balance, positions: vec![], timestamp: 0 }
}

#[test]
fn risk_gate_caps_size_at_max_trade_risk() {
    // 10% of equity requested under a 5% cap: approved, size halved.
    let gate = RiskGate::new(RiskConfig { max_trade_risk: 500, stop_loss: 500 });
    let decision = gate.check(&plain_intent(1000, 10), &cash_snapshot(100_000));
    assert!(decision.approved);
    assert_eq!(decision.adjusted_size, 500);
    assert_eq!(decision.reason_if_rejected, None);
}

#[test]
fn risk_gate_passes_requests_under_the_cap_unchanged() {
    let gate = RiskGate::new(RiskConfig { max_trade_risk: 500, stop_loss: 500 });
    let decision = gate.check(&plain_intent(300, 10), &cash_snapshot(100_000));
    assert!(decision.approved);
    assert_eq!(decision.adjusted_size, 300);
}

#[test]
fn risk_gate_rejects_unaffordable_and_invalid_intents() {
    let gate = RiskGate::new(RiskConfig { max_trade_risk: 500, stop_loss: 500 });
    let broke = gate.check(&plain_intent(1000, 10), &cash_snapshot(9_999));
    assert!(!broke.approved);
    assert_eq!(broke.reason_if_rejected, Some(RejectReason::InsufficientBalance));
    let mut flat = plain_intent(10, 10);
    flat.direction = Direction::Flat;
    let invalid = gate.check(&flat, &cash_snapshot(100_000));
    assert!(!invalid.approved);
    assert_eq!(invalid.reason_if_rejected, Some(RejectReason::InvalidIntent));
    let zero = gate.check(&plain_intent(0, 10), &cash_snapshot(100_000));
    assert_eq!(zero.reason_if_rejected, Some(RejectReason::InvalidIntent));
}

#[test]
fn risk_gate_is_deterministic_across_calls() {
    let gate = RiskGate::new(RiskConfig { max_trade_risk: 500, stop_loss: 500 });
    let intent = plain_intent(1000, 10);
    let snap = cash_snapshot(100_000);
    let first = gate.check(&intent, &snap);
    let second = gate.check(&intent, &snap);
    assert_eq!(first, second);
}

#[test]
fn same_direction_fills_combine_as_weighted_average() {
    // 10 at 100 then 30 at 140 must equal a single 40 at 130.
    let mut sequential = AccountState::new(1_000_000, 500);
    assert!(sequential.register_instrument(1));
    sequential
        .apply_fill(&Fill { instrument_id: 1, side: Side::Buy, size: 10, price: 100, timestamp: 1 })
        .unwrap();
    sequential
        .apply_fill(&Fill { instrument_id: 1, side: Side::Buy, size: 30, price: 140, timestamp: 2 })
        .unwrap();
    let mut combined = AccountState::new(1_000_000, 500);
    assert!(combined.register_instrument(1));
    combined
        .apply_fill(&Fill { instrument_id: 1, side: Side::Buy, size: 40, price: 130, timestamp: 2 })
        .unwrap();
    let (a, b) = (
        sequential.snapshot().position(1).unwrap(),
        combined.snapshot().position(1).unwrap(),
    );
    assert_eq!(a.net_size, 40);
    assert_eq!(a.net_size, b.net_size);
    assert_eq!(a.cost, b.cost);
    assert_eq!(a.entry_price(), 130);
    assert_eq!(b.entry_price(), 130);
    assert_eq!(a.stop_loss_price, b.stop_loss_price);
}

#[test]
fn round_trip_returns_to_flat_and_realizes_the_delta() {
    let mut account = AccountState::new(1_000_000, 500);
    assert!(account.register_instrument(1));
    account
        .apply_fill(&Fill { instrument_id: 1, side: Side::Buy, size: 5, price: 160, timestamp: 1 })
        .unwrap();
    let open = account.snapshot().position(1).unwrap();
    assert_eq!(open.direction, Direction::Long);
    assert_eq!(open.entry_price(), 160);
    account
        .apply_fill(&Fill { instrument_id: 1, side: Side::Sell, size: 5, price: 170, timestamp: 2 })
        .unwrap();
    let closed = account.snapshot().position(1).unwrap();
    assert_eq!(closed.net_size, 0);
    assert_eq!(closed.direction, Direction::Flat);
    assert_eq!(closed.unrealized_pnl(), 0);
    assert_eq!(closed.realized_pnl, 5 * (170 - 160));
    assert_eq!(closed.stop_loss_price, 0);
}

#[test]
fn partial_close_and_flip_keep_the_books() {
    let mut account = AccountState::new(1_000_000, 500);
    assert!(account.register_instrument(1));
    account
        .apply_fill(&Fill { instrument_id: 1, side: Side::Buy, size: 10, price: 100, timestamp: 1 })
        .unwrap();
    // Sell 4 of 10 at 120: realize 4 * 20, keep 6 at entry 100.
    account
        .apply_fill(&Fill { instrument_id: 1, side: Side::Sell, size: 4, price: 120, timestamp: 2 })
        .unwrap();
    let reduced = account.snapshot().position(1).unwrap();
    assert_eq!(reduced.net_size, 6);
    assert_eq!(reduced.entry_price(), 100);
    assert_eq!(reduced.realized_pnl, 80);
    // Sell 10 more at 90: close the 6 (realizing 6 * -10) and flip short 4.
    account
        .apply_fill(&Fill { instrument_id: 1, side: Side::Sell, size: 10, price: 90, timestamp: 3 })
        .unwrap();
    let flipped = account.snapshot().position(1).unwrap();
    assert_eq!(flipped.direction, Direction::Short);
    assert_eq!(flipped.net_size, 4);
    assert_eq!(flipped.entry_price(), 90);
    assert_eq!(flipped.realized_pnl, 80 - 60);
}

#[test]
fn account_equity_tracks_profit_and_loss() {
    let mut account = AccountState::new(1_000, 500);
    assert!(account.register_instrument(1));
    account
        .apply_fill(&Fill { instrument_id: 1, side: Side::Buy, size: 10, price: 100, timestamp: 1 })
        .unwrap();
    assert_eq!(account.snapshot().equity(), 1_000);
    account
        .apply_fill(&Fill { instrument_id: 1, side: Side::Sell, size: 5, price: 120, timestamp: 2 })
        .unwrap();
    // Realized 5 * 20; the rest marked at 120 shows 5 * 20 unrealized.
    assert_eq!(account.snapshot().equity(), 1_000 + 100 + 100);
}

#[test]
fn order_lifecycle_runs_pending_to_filled() {
    let mut order = Order::new(7, 1, Side::Buy, 10);
    assert_eq!(order.status, OrderStatus::Pending);
    let fill = order.record_fill(4, 100, 1).unwrap();
    assert_eq!(fill.size, 4);
    assert_eq!(fill.side, Side::Buy);
    assert_eq!(order.status, OrderStatus::PartiallyFilled);
    assert_eq!(order.filled_size, 4);
    order.record_fill(6, 110, 2).unwrap();
    assert_eq!(order.status, OrderStatus::Filled);
    assert_eq!(order.filled_size, 10);
    assert_eq!(order.avg_fill_price(), Some(106));
    // Terminal states admit nothing further.
    assert_eq!(order.record_fill(1, 100, 3), Err(OrderUpdateError::AlreadyTerminal));
    assert_eq!(order.cancel(), Err(OrderUpdateError::AlreadyTerminal));
    assert_eq!(order.reject(), Err(OrderUpdateError::AlreadyTerminal));
    assert_eq!(order.filled_size, 10);
}

#[test]
fn order_refuses_overfill_and_bad_fills() {
    let mut order = Order::new(8, 1, Side::Sell, 10);
    assert_eq!(order.record_fill(11, 100, 1), Err(OrderUpdateError::Overfill));
    assert_eq!(order.record_fill(0, 100, 1), Err(OrderUpdateError::BadFill));
    assert_eq!(order.record_fill(1, 0, 1), Err(OrderUpdateError::BadFill));
    assert_eq!(order.status, OrderStatus::Pending);
    assert_eq!(order.avg_fill_price(), None);
    order.cancel().unwrap();
    assert_eq!(order.status, OrderStatus::Cancelled);
    let mut other = Order::new(9, 1, Side::Sell, 10);
    other.reject().unwrap();
    assert_eq!(other.status, OrderStatus::Rejected);
}

#[test]
fn retry_policy_backs_off_then_abandons() {
    assert_eq!(
        retry_decision(SubmitError::Transient, 0, 3, 100),
        RetryDecision::Retry { backoff_ms: 100 }
    );
    assert_eq!(
        retry_decision(SubmitError::Transient, 1, 3, 100),
        RetryDecision::Retry { backoff_ms: 200 }
    );
    assert_eq!(
        retry_decision(SubmitError::Transient, 2, 3, 100),
        RetryDecision::Retry { backoff_ms: 400 }
    );
    assert_eq!(retry_decision(SubmitError::Transient, 3, 3, 100), RetryDecision::Abandon);
    assert_eq!(retry_decision(SubmitError::Terminal, 0, 3, 100), RetryDecision::Abandon);
}

#[test]
fn supervisor_fails_fast_on_core_components_only() {
    let clean = supervise(EngineEvent::ShutdownSignal);
    assert!(clean.initiate_shutdown);
    assert_eq!(clean.exit_code, 0);
    assert_eq!(clean.failed_component, None);
    let feed = supervise(EngineEvent::ComponentStopped { component: Component::Feed, failed: true });
    assert!(feed.initiate_shutdown);
    assert_eq!(feed.exit_code, 1);
    assert_eq!(feed.failed_component, Some(Component::Feed));
    let telemetry = supervise(EngineEvent::ComponentStopped {
        component: Component::Telemetry,
        failed: true,
    });
    assert!(!telemetry.initiate_shutdown);
    assert_eq!(telemetry.exit_code, 0);
}

fn good_config() -> Config {
    Config {
        exchange: ExchangeConfig {
            binance_key: "key".to_string(),
            binance_sec: "sec".to_string(),
        },
        symbols: SymbolsConfig { spot: "SOLUSDT".to_string(), hedge: "SOLUSD_PERP".to_string() },
        thresholds: ThresholdsConfig {
            meme_drop_pct: 3000,
            rsi_max: 4500,
            support_low: 160,
            support_high: 162,
        },
        risk: RiskConfig { max_trade_risk: 500, stop_loss: 500 },
    }
}

#[test]
fn config_validation_names_the_first_bad_part() {
    assert_eq!(good_config().validate(), Ok(()));
    let mut c = good_config();
    c.exchange.binance_key = String::new();
    assert_eq!(c.validate(), Err(ConfigError::EmptyCredential));
    let mut c = good_config();
    c.symbols.hedge = String::new();
    assert_eq!(c.validate(), Err(ConfigError::EmptySymbol));
    let mut c = good_config();
    c.thresholds.support_low = 163;
    assert_eq!(c.validate(), Err(ConfigError::BadThresholds));
    let mut c = good_config();
    c.risk.max_trade_risk = 0;
    assert_eq!(c.validate(), Err(ConfigError::BadRisk));
}
