use arb_engine::config::{Config, ConfigError, ConfigVars};
use arb_engine::parse::{parse_i64_dec, parse_micro};
use arb_engine::types::{Level, WsLevel};

fn vars_with_required() -> ConfigVars {
    ConfigVars {
        api_key: Some("key".to_string()),
        api_secret: Some("secret".to_string()),
        api_passphrase: Some("phrase".to_string()),
        private_key: Some("pk".to_string()),
        funder_address: Some("funder".to_string()),
        http_url: None,
        ws_url: None,
        max_daily_loss_pct: None,
        max_trade_capital_pct: None,
        min_edge: None,
    }
}

#[test]
fn parse_micro_scales_decimals() {
    assert_eq!(parse_micro("0.5"), Some(500_000));
    assert_eq!(parse_micro("0.02"), Some(20_000));
    assert_eq!(parse_micro("10"), Some(10_000_000));
    assert_eq!(parse_micro("-0.25"), Some(-250_000));
    assert_eq!(parse_micro("0.000001"), Some(1));
}

#[test]
fn parse_micro_rejects_junk_and_excess_precision() {
    assert_eq!(parse_micro("abc"), None);
    assert_eq!(parse_micro(""), None);
    assert_eq!(parse_micro("0.0000001"), None);
    // Values beyond the representable bound are rejected too.
    assert_eq!(parse_micro("2000000"), None);
}

#[test]
fn parse_i64_dec_reads_signed_integers() {
    assert_eq!(parse_i64_dec("123"), Some(123));
    assert_eq!(parse_i64_dec("-45"), Some(-45));
    assert_eq!(parse_i64_dec("+7"), Some(7));
    assert_eq!(parse_i64_dec("0"), Some(0));
    assert_eq!(parse_i64_dec("9223372036854775807"), Some(i64::MAX));
    assert_eq!(parse_i64_dec("-9223372036854775808"), Some(i64::MIN));
}

#[test]
fn parse_i64_dec_rejects_malformed_and_overflow() {
    assert_eq!(parse_i64_dec(""), None);
    assert_eq!(parse_i64_dec("-"), None);
    assert_eq!(parse_i64_dec("12a"), None);
    assert_eq!(parse_i64_dec(" 5"), None);
    assert_eq!(parse_i64_dec("9223372036854775808"), None);
    assert_eq!(parse_i64_dec("-9223372036854775809"), None);
}

#[test]
fn ws_level_parses_price_and_size() {
    let l = WsLevel("0.5".to_string(), "10".to_string());
    assert_eq!(l.to_level(), Some(Level { price: 500_000, size: 10_000_000 }));
}

#[test]
fn ws_level_rejects_malformed_fields() {
    assert_eq!(WsLevel("x".to_string(), "10".to_string()).to_level(), None);
    assert_eq!(WsLevel("0.5".to_string(), "".to_string()).to_level(), None);
}

#[test]
fn config_defaults_apply_when_vars_are_unset() {
    let c = Config::from_vars(vars_with_required()).unwrap();
    assert_eq!(c.max_daily_loss_pct, 20_000);
    assert_eq!(c.max_trade_capital_pct, 10_000);
    assert_eq!(c.min_edge, 50_000);
    assert_eq!(c.http_url, "https://clob.polymarket.com");
    assert_eq!(c.ws_url, "wss://clob.polymarket.com/ws/");
    assert_eq!(c.min_liquidity_multiplier, 5_000_000);
    assert_eq!(c.normalization_threshold, 990_000);
    assert_eq!(c.normalization_updates, 3);
    assert_eq!(c.trade_cooldown_ms, 30_000);
    assert_eq!(c.poll_interval_ms, 250);
}

#[test]
fn config_parses_numeric_overrides() {
    let mut vars = vars_with_required();
    vars.max_daily_loss_pct = Some("0.1".to_string());
    vars.min_edge = Some("0.005".to_string());
    let c = Config::from_vars(vars).unwrap();
    assert_eq!(c.max_daily_loss_pct, 100_000);
    assert_eq!(c.min_edge, 5_000);
}

#[test]
fn config_missing_credential_is_fatal() {
    let mut vars = vars_with_required();
    vars.api_key = None;
    assert_eq!(Config::from_vars(vars).unwrap_err(), ConfigError::MissingApiKey);
    let mut vars = vars_with_required();
    vars.funder_address = None;
    assert_eq!(Config::from_vars(vars).unwrap_err(), ConfigError::MissingFunderAddress);
}

#[test]
fn config_invalid_number_is_fatal() {
    let mut vars = vars_with_required();
    vars.max_daily_loss_pct = Some("nope".to_string());
    assert_eq!(Config::from_vars(vars).unwrap_err(), ConfigError::InvalidMaxDailyLossPct);
    let mut vars = vars_with_required();
    vars.max_trade_capital_pct = Some("".to_string());
    assert_eq!(Config::from_vars(vars).unwrap_err(), ConfigError::InvalidMaxTradeCapitalPct);
    let mut vars = vars_with_required();
    vars.min_edge = Some("1e".to_string());
    assert_eq!(Config::from_vars(vars).unwrap_err(), ConfigError::InvalidMinEdge);
}
