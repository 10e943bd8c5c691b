//! Decision core of a two-instrument spot/hedge trading engine.
//!
//! The library holds the pure decision pipeline: signal evaluation over a
//! rolling tick window, risk gating of trade intents against an account
//! snapshot, the order lifecycle state machine with its stop-loss monitor and
//! retry policy, and the account/position ledger that fills are folded into.
//! All prices and quantities are integer fixed-point values; fractional
//! thresholds are carried in basis points (see [`types`]).
//!
//! Everything that talks to the outside world (market-data transport,
//! exchange calls, telemetry HTTP, logging) lives outside this crate and
//! hands plain values in and out.

pub mod account;
pub mod config;
pub mod data;
pub mod execution;
pub mod indicators;
pub mod risk;
pub mod signal;
pub mod supervisor;
pub mod types;
