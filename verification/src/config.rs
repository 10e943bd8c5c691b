//! Engine configuration and its validation.
//!
//! Fractional settings are fixed-point integers: `meme_drop_pct`,
//! `max_trade_risk` and `stop_loss` are basis points (500 is 5%), `rsi_max`
//! is hundredths of an RSI point (4500 is an RSI of 45.00), and the support
//! band bounds are prices in integer price units. An external loader parses
//! whatever on-disk format is in use and hands the engine this plain form;
//! `Config::validate` is the engine's own fail-fast check of the values.

use vstd::prelude::*;

use crate::types::{BPS_DENOM, MAX_PRICE, MAX_QTY, RSI_DENOM};

verus! {

/// Exchange API credentials.
#[derive(Clone, Debug)]
pub struct ExchangeConfig {
    pub binance_key: String,
    pub binance_sec: String,
}

/// The traded symbol pair: the spot instrument and its correlated hedge.
#[derive(Clone, Debug)]
pub struct SymbolsConfig {
    pub spot: String,
    pub hedge: String,
}

/// Signal thresholds: a long intent fires when the drop from the recent high
/// reaches `meme_drop_pct`, RSI is at most `rsi_max`, and the price sits
/// inside `[support_low, support_high]`, all at once.
#[derive(Clone, Copy, Debug, PartialEq, Eq, Structural)]
pub struct ThresholdsConfig {
    /// Required percent drop from the recent high, in basis points.
    pub meme_drop_pct: u32,
    /// Upper RSI bound, in hundredths of an RSI point.
    pub rsi_max: u32,
    /// Lower edge of the support band, in price units.
    pub support_low: u64,
    /// Upper edge of the support band, in price units.
    pub support_high: u64,
}

/// Risk limits applied to every intent and every open position.
#[derive(Clone, Copy, Debug, PartialEq, Eq, Structural)]
pub struct RiskConfig {
    /// Largest fraction of account equity one trade may put at risk, in basis points.
    pub max_trade_risk: u32,
    /// Stop-loss distance from the entry price, in basis points.
    pub stop_loss: u32,
}

/// Full engine configuration.
#[derive(Clone, Debug)]
pub struct Config {
    pub exchange: ExchangeConfig,
    pub symbols: SymbolsConfig,
    pub thresholds: ThresholdsConfig,
    pub risk: RiskConfig,
}

/// Which part of a configuration is unusable.
#[derive(Clone, Copy, Debug, PartialEq, Eq, Structural)]
pub enum ConfigError {
    EmptyCredential,
    EmptySymbol,
    BadThresholds,
    BadRisk,
}

pub open spec fn exchange_wf(c: ExchangeConfig) -> bool {
    c.binance_key@.len() > 0 && c.binance_sec@.len() > 0
}

pub open spec fn symbols_wf(c: SymbolsConfig) -> bool {
    c.spot@.len() > 0 && c.hedge@.len() > 0
}

pub open spec fn thresholds_wf(c: ThresholdsConfig) -> bool {
    &&& c.meme_drop_pct <= BPS_DENOM
    &&& c.rsi_max <= RSI_DENOM
    &&& 0 < c.support_low <= c.support_high <= MAX_PRICE
}

pub open spec fn risk_wf(c: RiskConfig) -> bool {
    &&& 0 < c.max_trade_risk <= BPS_DENOM
    &&& c.stop_loss < BPS_DENOM
}

impl Config {
    pub open spec fn wf(self) -> bool {
        &&& exchange_wf(self.exchange)
        &&& symbols_wf(self.symbols)
        &&& thresholds_wf(self.thresholds)
        &&& risk_wf(self.risk)
    }

    /// Fail-fast validation: `Ok` exactly on well-formed configurations, and
    /// the error names the first part, in declaration order, that is bad.
    pub fn validate(&self) -> (r: Result<(), ConfigError>)
        ensures
            r is Ok <==> self.wf(),
            r == Err::<(), ConfigError>(ConfigError::EmptyCredential) <==> !exchange_wf(
                self.exchange,
            ),
            r == Err::<(), ConfigError>(ConfigError::EmptySymbol) <==> exchange_wf(self.exchange)
                && !symbols_wf(self.symbols),
            r == Err::<(), ConfigError>(ConfigError::BadThresholds) <==> exchange_wf(self.exchange)
                && symbols_wf(self.symbols) && !thresholds_wf(self.thresholds),
            r == Err::<(), ConfigError>(ConfigError::BadRisk) <==> exchange_wf(self.exchange)
                && symbols_wf(self.symbols) && thresholds_wf(self.thresholds) && !risk_wf(
                self.risk,
            ),
    {
        if self.exchange.binance_key.unicode_len() == 0 || self.exchange.binance_sec.unicode_len()
            == 0 {
            return Err(ConfigError::EmptyCredential);
        }
        if self.symbols.spot.unicode_len() == 0 || self.symbols.hedge.unicode_len() == 0 {
            return Err(ConfigError::EmptySymbol);
        }
        let t = self.thresholds;
        if t.meme_drop_pct > BPS_DENOM as u32 || t.rsi_max > RSI_DENOM || t.support_low == 0
            || t.support_low > t.support_high || t.support_high > MAX_PRICE {
            return Err(ConfigError::BadThresholds);
        }
        let k = self.risk;
        if k.max_trade_risk == 0 || k.max_trade_risk > BPS_DENOM as u32 || k.stop_loss
            >= BPS_DENOM as u32 {
            return Err(ConfigError::BadRisk);
        }
        Ok(())
    }
}

} // verus!
