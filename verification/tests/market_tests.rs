use arb_engine::config::Config;
use arb_engine::market::MarketMonitor;
use arb_engine::types::{Market, MarketState, Token, WsBookUpdate, WsLevel, WsMessage};

fn config() -> Config {
    Config {
        api_key: "key".to_string(),
        api_secret: "secret".to_string(),
        api_passphrase: "phrase".to_string(),
        private_key: "pk".to_string(),
        funder_address: "funder".to_string(),
        http_url: "http://example.invalid".to_string(),
        ws_url: "ws://example.invalid".to_string(),
        max_daily_loss_pct: 20_000,
        max_trade_capital_pct: 10_000,
        min_edge: 50_000,
        poll_interval_ms: 250,
        min_liquidity_multiplier: 5_000_000,
        normalization_threshold: 990_000,
        normalization_updates: 3,
        trade_cooldown_ms: 30_000,
    }
}

fn token(id: &str, outcome: &str) -> Token {
    Token { token_id: id.to_string(), outcome: outcome.to_string(), price: 0, winner: false }
}

fn market(id: &str) -> Market {
    Market {
        condition_id: id.to_string(),
        question: "will it?".to_string(),
        tokens: vec![token("yes-tok", "Yes"), token("no-tok", "No")],
        active: true,
        closed: false,
        accepting_orders: true,
        end_date_iso: None,
        tags: Some(vec!["Crypto".to_string()]),
        state: MarketState::default(),
    }
}

fn monitor_with_market() -> MarketMonitor {
    let mut mon = MarketMonitor::new(config());
    mon.add_market(market("mkt-1"));
    mon
}

fn book_update(asset: &str, asks: &[(&str, &str)]) -> WsBookUpdate {
    WsBookUpdate {
        asset_id: asset.to_string(),
        bids: Vec::new(),
        asks: asks.iter().map(|(p, s)| WsLevel(p.to_string(), s.to_string())).collect(),
        hash: "h".to_string(),
        timestamp: "1700000000000".to_string(),
    }
}

#[test]
fn is_valid_crypto_market_filters() {
    let mon = MarketMonitor::new(config());
    assert!(mon.is_valid_crypto_market(&market("m")));
    let mut inactive = market("m");
    inactive.active = false;
    assert!(!mon.is_valid_crypto_market(&inactive));
    let mut one_leg = market("m");
    one_leg.tokens.pop();
    assert!(!mon.is_valid_crypto_market(&one_leg));
    let mut untagged = market("m");
    untagged.tags = Some(vec!["Sports".to_string()]);
    assert!(!mon.is_valid_crypto_market(&untagged));
    let mut no_tags = market("m");
    no_tags.tags = None;
    assert!(!mon.is_valid_crypto_market(&no_tags));
}

#[test]
fn register_markets_counts_valid_ones() {
    let mut mon = MarketMonitor::new(config());
    let mut bad = market("mkt-bad");
    bad.accepting_orders = false;
    let count = mon.register_markets(vec![market("mkt-a"), bad, market("mkt-b")]);
    assert_eq!(count, 2);
    assert!(mon.get_market_tokens("mkt-a").is_some());
    assert!(mon.get_market_tokens("mkt-bad").is_none());
}

#[test]
fn get_market_tokens_returns_both_legs() {
    let mon = monitor_with_market();
    let (yes, no) = mon.get_market_tokens("mkt-1").unwrap();
    assert_eq!(yes, "yes-tok");
    assert_eq!(no, "no-tok");
    assert!(mon.get_market_tokens("absent").is_none());
}

#[test]
fn best_ask_is_minimum_price_of_latest_snapshot() {
    let mut mon = monitor_with_market();
    mon.handle_book_update(book_update("yes-tok", &[("0.60", "5"), ("0.40", "7"), ("0.55", "9")]), 0);
    mon.handle_book_update(book_update("no-tok", &[("0.58", "3")]), 0);
    assert_eq!(mon.get_best_asks("yes-tok", "no-tok"), Some((400_000, 580_000)));
    // A new snapshot replaces the book wholesale: the old 0.40 level is
    // gone, not merged.
    mon.handle_book_update(book_update("yes-tok", &[("0.52", "5")]), 0);
    assert_eq!(mon.get_best_asks("yes-tok", "no-tok"), Some((520_000, 580_000)));
}

#[test]
fn best_asks_need_both_books() {
    let mut mon = monitor_with_market();
    mon.handle_book_update(book_update("yes-tok", &[("0.40", "7")]), 0);
    assert_eq!(mon.get_best_asks("yes-tok", "no-tok"), None);
    mon.handle_book_update(book_update("no-tok", &[]), 0);
    // The NO book exists but has no asks.
    assert_eq!(mon.get_best_asks("yes-tok", "no-tok"), None);
}

#[test]
fn unknown_asset_update_is_dropped() {
    let mut mon = monitor_with_market();
    assert_eq!(mon.handle_book_update(book_update("stranger", &[("0.5", "1")]), 0), None);
}

#[test]
fn handle_message_routes_book_updates_and_ignores_unknown() {
    let mut mon = monitor_with_market();
    let r = mon.handle_message(WsMessage::Book(book_update("yes-tok", &[("0.5", "1")]) ), 0);
    assert_eq!(r, Some("mkt-1".to_string()));
    assert_eq!(mon.handle_message(WsMessage::Unknown, 0), None);
}

#[test]
fn check_liquidity_requires_top_of_book_size_on_both_legs() {
    let mut mon = monitor_with_market();
    mon.handle_book_update(book_update("yes-tok", &[("0.40", "50")]), 0);
    mon.handle_book_update(book_update("no-tok", &[("0.55", "49")]), 0);
    assert!(mon.check_liquidity("yes-tok", "no-tok", 49_000_000));
    assert!(!mon.check_liquidity("yes-tok", "no-tok", 50_000_000));
    assert!(!mon.check_liquidity("yes-tok", "missing", 1));
}

#[test]
fn normalization_latches_exactly_on_third_qualifying_update() {
    let mut mon = monitor_with_market();
    // sum = 0.50 + 0.495 = 0.995 >= 0.99. The first update with both
    // books present is the first qualifying reading.
    mon.handle_book_update(book_update("yes-tok", &[("0.50", "100")]), 0);
    let st = mon.get_market_state_clone("mkt-1").unwrap();
    assert_eq!(st.consecutive_normalized_updates, 0);
    mon.handle_book_update(book_update("no-tok", &[("0.495", "100")]), 0);
    let st = mon.get_market_state_clone("mkt-1").unwrap();
    assert_eq!(st.consecutive_normalized_updates, 1);
    assert!(!st.is_normalized);
    mon.handle_book_update(book_update("no-tok", &[("0.495", "100")]), 0);
    let st = mon.get_market_state_clone("mkt-1").unwrap();
    assert_eq!(st.consecutive_normalized_updates, 2);
    assert!(!st.is_normalized);
    mon.handle_book_update(book_update("no-tok", &[("0.495", "100")]), 0);
    let st = mon.get_market_state_clone("mkt-1").unwrap();
    assert_eq!(st.consecutive_normalized_updates, 3);
    assert!(st.is_normalized);
    assert_eq!(st.last_edge, 1_000_000 - 995_000);
}

#[test]
fn non_qualifying_update_resets_counter_without_unlatching() {
    let mut mon = monitor_with_market();
    mon.handle_book_update(book_update("yes-tok", &[("0.50", "100")]), 0);
    for _ in 0..3 {
        mon.handle_book_update(book_update("no-tok", &[("0.495", "100")]), 0);
    }
    assert!(mon.get_market_state_clone("mkt-1").unwrap().is_normalized);
    // A cheap reading: sum = 0.90 < 0.99. Counter resets, latch stays.
    mon.handle_book_update(book_update("no-tok", &[("0.40", "100")]), 0);
    let st = mon.get_market_state_clone("mkt-1").unwrap();
    assert_eq!(st.consecutive_normalized_updates, 0);
    assert!(st.is_normalized);
}

#[test]
fn counter_resets_before_latching_too() {
    let mut mon = monitor_with_market();
    mon.handle_book_update(book_update("yes-tok", &[("0.50", "100")]), 0);
    mon.handle_book_update(book_update("no-tok", &[("0.495", "100")]), 0);
    mon.handle_book_update(book_update("no-tok", &[("0.495", "100")]), 0);
    // Two qualifying readings, then one below threshold: back to zero.
    mon.handle_book_update(book_update("no-tok", &[("0.40", "100")]), 0);
    let st = mon.get_market_state_clone("mkt-1").unwrap();
    assert_eq!(st.consecutive_normalized_updates, 0);
    assert!(!st.is_normalized);
    // It takes three fresh qualifying readings again.
    mon.handle_book_update(book_update("no-tok", &[("0.495", "100")]), 0);
    mon.handle_book_update(book_update("no-tok", &[("0.495", "100")]), 0);
    assert!(!mon.get_market_state_clone("mkt-1").unwrap().is_normalized);
    mon.handle_book_update(book_update("no-tok", &[("0.495", "100")]), 0);
    assert!(mon.get_market_state_clone("mkt-1").unwrap().is_normalized);
}

#[test]
fn mark_trade_executed_clears_latch_and_starts_cooldown() {
    let mut mon = monitor_with_market();
    mon.handle_book_update(book_update("yes-tok", &[("0.50", "100")]), 0);
    for _ in 0..3 {
        mon.handle_book_update(book_update("no-tok", &[("0.495", "100")]), 0);
    }
    assert!(mon.get_market_state_clone("mkt-1").unwrap().is_normalized);
    mon.mark_trade_executed_at("mkt-1", 42_000);
    let st = mon.get_market_state_clone("mkt-1").unwrap();
    assert!(!st.is_normalized);
    assert_eq!(st.consecutive_normalized_updates, 0);
    assert_eq!(st.last_trade_time, Some(42_000));
}

#[test]
fn book_timestamps_are_normalized_to_millis() {
    // Exercised through the public update path: a second-count timestamp
    // and a millisecond one both land as milliseconds; an unreadable one
    // falls back to zero seconds.
    let mut mon = monitor_with_market();
    let mut upd = book_update("yes-tok", &[("0.5", "1")]);
    upd.timestamp = "1700000000".to_string();
    assert!(mon.handle_book_update(upd, 7).is_some());
    let mut upd = book_update("yes-tok", &[("0.5", "1")]);
    upd.timestamp = "not-a-number".to_string();
    assert!(mon.handle_book_update(upd, 7).is_some());
}
