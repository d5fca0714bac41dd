//! Engine configuration. The raw environment values are read outside the
//! engine and handed in as plain optional strings; this module applies
//! the documented defaults, parses the numeric thresholds to micro-units
//! and reports the first fault.

use vstd::prelude::*;
use crate::fixed::QTY_LIMIT;
use crate::parse::{micro_of_str, parse_micro};

verus! {

/// Default thresholds, in micro-units: 2% daily loss, 1% of capital per
/// trade, 5% minimum edge.
pub const DEFAULT_MAX_DAILY_LOSS_PCT: i64 = 20_000;

pub const DEFAULT_MAX_TRADE_CAPITAL_PCT: i64 = 10_000;

pub const DEFAULT_MIN_EDGE: i64 = 50_000;

#[derive(Debug, Clone)]
pub struct Config {
    pub api_key: String,
    pub api_secret: String,
    pub api_passphrase: String,
    pub private_key: String,
    pub funder_address: String,
    pub http_url: String,
    pub ws_url: String,
    pub max_daily_loss_pct: i64,
    pub max_trade_capital_pct: i64,
    pub min_edge: i64,
    pub poll_interval_ms: u64,
    pub min_liquidity_multiplier: i64,
    pub normalization_threshold: i64,
    pub normalization_updates: u32,
    pub trade_cooldown_ms: i64,
}

/// A configuration fault, fatal at startup: a required credential is
/// absent, or a numeric threshold does not parse as a decimal that fits
/// micro-units.
#[derive(Debug, Clone, Copy, PartialEq, Eq, Structural)]
pub enum ConfigError {
    InvalidMaxDailyLossPct,
    InvalidMaxTradeCapitalPct,
    InvalidMinEdge,
    MissingApiKey,
    MissingApiSecret,
    MissingApiPassphrase,
    MissingPrivateKey,
    MissingFunderAddress,
}

/// The raw environment values, one per configuration variable; `None`
/// where the variable is unset.
pub struct ConfigVars {
    pub api_key: Option<String>,
    pub api_secret: Option<String>,
    pub api_passphrase: Option<String>,
    pub private_key: Option<String>,
    pub funder_address: Option<String>,
    pub http_url: Option<String>,
    pub ws_url: Option<String>,
    pub max_daily_loss_pct: Option<String>,
    pub max_trade_capital_pct: Option<String>,
    pub min_edge: Option<String>,
}

/// The numeric thresholds lie within the global micro-unit bound, as
/// every configuration built by `from_vars` does; products with them then
/// stay representable.
pub open spec fn config_bounded(c: Config) -> bool {
    &&& -QTY_LIMIT <= c.max_daily_loss_pct <= QTY_LIMIT
    &&& -QTY_LIMIT <= c.max_trade_capital_pct <= QTY_LIMIT
    &&& -QTY_LIMIT <= c.min_edge <= QTY_LIMIT
    &&& -QTY_LIMIT <= c.min_liquidity_multiplier <= QTY_LIMIT
    &&& -QTY_LIMIT <= c.normalization_threshold <= QTY_LIMIT
}

/// The micro-unit value of an optional numeric variable: the default
/// where unset, the parsed string where set, `None` where it fails.
pub open spec fn opt_micro(v: Option<String>, default: int) -> Option<int> {
    match v {
        None => Some(default),
        Some(s) => micro_of_str(s@),
    }
}

/// The first fault in the given environment, in the order the values are
/// read: the numeric thresholds, then the required credentials.
pub open spec fn config_fault(vars: ConfigVars) -> Option<ConfigError> {
    if opt_micro(vars.max_daily_loss_pct, DEFAULT_MAX_DAILY_LOSS_PCT as int) is None {
        Some(ConfigError::InvalidMaxDailyLossPct)
    } else if opt_micro(vars.max_trade_capital_pct, DEFAULT_MAX_TRADE_CAPITAL_PCT as int) is None {
        Some(ConfigError::InvalidMaxTradeCapitalPct)
    } else if opt_micro(vars.min_edge, DEFAULT_MIN_EDGE as int) is None {
        Some(ConfigError::InvalidMinEdge)
    } else if vars.api_key is None {
        Some(ConfigError::MissingApiKey)
    } else if vars.api_secret is None {
        Some(ConfigError::MissingApiSecret)
    } else if vars.api_passphrase is None {
        Some(ConfigError::MissingApiPassphrase)
    } else if vars.private_key is None {
        Some(ConfigError::MissingPrivateKey)
    } else if vars.funder_address is None {
        Some(ConfigError::MissingFunderAddress)
    } else {
        None
    }
}

impl Config {
    /// Builds the configuration from raw environment values: documented
    /// defaults for everything optional, the first fault otherwise.
    pub fn from_vars(vars: ConfigVars) -> (r: Result<Config, ConfigError>)
        ensures
            r is Ok <==> config_fault(vars) is None,
            r matches Err(e) ==> Some(e) == config_fault(vars),
            r matches Ok(c) ==> {
                &&& Some(c.max_daily_loss_pct as int) == opt_micro(
                    vars.max_daily_loss_pct,
                    DEFAULT_MAX_DAILY_LOSS_PCT as int,
                )
                &&& Some(c.max_trade_capital_pct as int) == opt_micro(
                    vars.max_trade_capital_pct,
                    DEFAULT_MAX_TRADE_CAPITAL_PCT as int,
                )
                &&& Some(c.min_edge as int) == opt_micro(vars.min_edge, DEFAULT_MIN_EDGE as int)
                &&& Some(c.api_key) == vars.api_key
                &&& Some(c.api_secret) == vars.api_secret
                &&& Some(c.api_passphrase) == vars.api_passphrase
                &&& Some(c.private_key) == vars.private_key
                &&& Some(c.funder_address) == vars.funder_address
                &&& c.http_url@ == (match vars.http_url {
                    Some(u) => u@,
                    None => "https://clob.polymarket.com"@,
                })
                &&& c.ws_url@ == (match vars.ws_url {
                    Some(u) => u@,
                    None => "wss://clob.polymarket.com/ws/"@,
                })
                &&& c.poll_interval_ms == 250u64
                &&& c.min_liquidity_multiplier == 5_000_000i64
                &&& c.normalization_threshold == 990_000i64
                &&& c.normalization_updates == 3u32
                &&& c.trade_cooldown_ms == 30_000i64
                &&& config_bounded(c)
            },
    {
        let max_daily_loss_pct: i64 = match &vars.max_daily_loss_pct {
            Some(s) => match parse_micro(s.as_str()) {
                Some(v) => v,
                None => {
                    return Err(ConfigError::InvalidMaxDailyLossPct);
                },
            },
            None => DEFAULT_MAX_DAILY_LOSS_PCT,
        };
        let max_trade_capital_pct: i64 = match &vars.max_trade_capital_pct {
            Some(s) => match parse_micro(s.as_str()) {
                Some(v) => v,
                None => {
                    return Err(ConfigError::InvalidMaxTradeCapitalPct);
                },
            },
            None => DEFAULT_MAX_TRADE_CAPITAL_PCT,
        };
        let min_edge: i64 = match &vars.min_edge {
            Some(s) => match parse_micro(s.as_str()) {
                Some(v) => v,
                None => {
                    return Err(ConfigError::InvalidMinEdge);
                },
            },
            None => DEFAULT_MIN_EDGE,
        };
        let api_key = match vars.api_key {
            Some(k) => k,
            None => {
                return Err(ConfigError::MissingApiKey);
            },
        };
        let api_secret = match vars.api_secret {
            Some(k) => k,
            None => {
                return Err(ConfigError::MissingApiSecret);
            },
        };
        let api_passphrase = match vars.api_passphrase {
            Some(k) => k,
            None => {
                return Err(ConfigError::MissingApiPassphrase);
            },
        };
        let private_key = match vars.private_key {
            Some(k) => k,
            None => {
                return Err(ConfigError::MissingPrivateKey);
            },
        };
        let funder_address = match vars.funder_address {
            Some(k) => k,
            None => {
                return Err(ConfigError::MissingFunderAddress);
            },
        };
        let http_url = match vars.http_url {
            Some(u) => u,
            None => "https://clob.polymarket.com".to_owned(),
        };
        let ws_url = match vars.ws_url {
            Some(u) => u,
            None => "wss://clob.polymarket.com/ws/".to_owned(),
        };
        Ok(
            Config {
                api_key,
                api_secret,
                api_passphrase,
                private_key,
                funder_address,
                http_url,
                ws_url,
                max_daily_loss_pct,
                max_trade_capital_pct,
                min_edge,
                poll_interval_ms: 250,
                min_liquidity_multiplier: 5_000_000,
                normalization_threshold: 990_000,
                normalization_updates: 3,
                trade_cooldown_ms: 30_000,
            },
        )
    }
}

} // verus!
