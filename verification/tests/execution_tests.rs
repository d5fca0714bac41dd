use arb_engine::config::Config;
use arb_engine::execution::{order_amounts, side_code, side_label, ExecutionEngine};
use arb_engine::market::MarketMonitor;
use arb_engine::risk::RiskManager;
use arb_engine::strategy::{StrategyEngine, TRADE_SIZE};
use arb_engine::types::{Market, MarketState, Side, Token, TradeStatus, WsBookUpdate, WsLevel};

fn engine_config() -> Config {
    Config {
        api_key: "key".to_string(),
        api_secret: "secret".to_string(),
        api_passphrase: "phrase".to_string(),
        private_key: "pk".to_string(),
        funder_address: "funder".to_string(),
        http_url: "http://example.invalid".to_string(),
        ws_url: "ws://example.invalid".to_string(),
        max_daily_loss_pct: 20_000,
        max_trade_capital_pct: 10_000,
        min_edge: 50_000,
        poll_interval_ms: 250,
        min_liquidity_multiplier: 5_000_000,
        normalization_threshold: 990_000,
        normalization_updates: 3,
        trade_cooldown_ms: 30_000,
    }
}

fn engine() -> ExecutionEngine {
    ExecutionEngine::new(engine_config(), RiskManager::new(1_000_000_000, 20_000, 10_000))
}

fn one_ask_update(asset: &str, price: &str, size: &str) -> WsBookUpdate {
    WsBookUpdate {
        asset_id: asset.to_string(),
        bids: Vec::new(),
        asks: vec![WsLevel(price.to_string(), size.to_string())],
        hash: "h".to_string(),
        timestamp: "0".to_string(),
    }
}

fn normalized_monitor(yes_price: &str, no_price: &str) -> MarketMonitor {
    let mut mon = MarketMonitor::new(engine_config());
    mon.add_market(Market {
        condition_id: "mkt-1".to_string(),
        question: "will it?".to_string(),
        tokens: vec![
            Token {
                token_id: "yes-tok".to_string(),
                outcome: "Yes".to_string(),
                price: 0,
                winner: false,
            },
            Token {
                token_id: "no-tok".to_string(),
                outcome: "No".to_string(),
                price: 0,
                winner: false,
            },
        ],
        active: true,
        closed: false,
        accepting_orders: true,
        end_date_iso: None,
        tags: Some(vec!["Crypto".to_string()]),
        state: MarketState::default(),
    });
    // Drive the market to NORMALIZED with three qualifying readings, then
    // set the prices under test.
    mon.handle_book_update(one_ask_update("yes-tok", "0.50", "100"), 0);
    for _ in 0..3 {
        mon.handle_book_update(one_ask_update("no-tok", "0.495", "100"), 0);
    }
    assert!(mon.get_market_state_clone("mkt-1").unwrap().is_normalized);
    mon.handle_book_update(one_ask_update("yes-tok", yes_price, "100"), 0);
    mon.handle_book_update(one_ask_update("no-tok", no_price, "100"), 0);
    mon
}

#[test]
fn qualifying_edge_is_detected_and_fills_pay_the_profit() {
    // priceYes 0.40, priceNo 0.55, size 10, fee 0, min_edge 0.05:
    // edge = 1 - 0.95 = 0.05 qualifies, and a double fill pays
    // (1 - 0.95) * 10 = 0.5 units.
    let strat = StrategyEngine::new(engine_config());
    assert!(strat.check_opportunity(400_000, 550_000));
    let mut eng = engine();
    let starting = eng.risk_manager().current_balance();
    let (orders_yes, orders_no) = eng
        .plan_arb("mkt-1", "yes-tok", "no-tok", 400_000, 550_000, TRADE_SIZE, 1_000)
        .unwrap();
    assert_eq!(orders_yes.side, Side::Buy);
    assert_eq!(orders_no.side, Side::Buy);
    let (status, dump) = eng.settle_arb(
        "mkt-1", "yes-tok", "no-tok", 400_000, 550_000, TRADE_SIZE, true, true, 1_000,
    );
    assert_eq!(status, TradeStatus::Filled);
    assert!(dump.is_none());
    assert_eq!(eng.risk_manager().current_balance(), starting + 500_000);
    assert_eq!(eng.risk_manager().daily_pnl(), 500_000);
}

#[test]
fn negative_edge_is_rejected_and_nothing_is_dispatched() {
    // priceYes 0.50, priceNo 0.52: edge = -0.02, rejected.
    let strat = StrategyEngine::new(engine_config());
    assert!(!strat.check_opportunity(500_000, 520_000));
    let mon = normalized_monitor("0.50", "0.52");
    assert!(strat.process_market_update(&mon, "mkt-1", 1_000_000).is_none());
}

#[test]
fn qualifying_opportunity_flows_to_dispatch() {
    let strat = StrategyEngine::new(engine_config());
    let mon = normalized_monitor("0.40", "0.55");
    let opp = strat.process_market_update(&mon, "mkt-1", 1_000_000).unwrap();
    assert_eq!(opp.yes_token, "yes-tok");
    assert_eq!(opp.no_token, "no-tok");
    assert_eq!(opp.price_yes, 400_000);
    assert_eq!(opp.price_no, 550_000);
    assert_eq!(opp.size, TRADE_SIZE);
}

#[test]
fn filled_trade_resets_market_state() {
    let strat = StrategyEngine::new(engine_config());
    let mut mon = normalized_monitor("0.40", "0.55");
    strat.apply_trade_outcome(&mut mon, "mkt-1", TradeStatus::Filled);
    let st = mon.get_market_state_clone("mkt-1").unwrap();
    assert!(!st.is_normalized);
    assert!(st.last_trade_time.is_some());
    // And a fresh notification now fails the re-entry gate.
    assert!(strat.process_market_update(&mon, "mkt-1", 1_000_000).is_none());
}

#[test]
fn unfilled_trade_leaves_market_state_alone() {
    let strat = StrategyEngine::new(engine_config());
    let mut mon = normalized_monitor("0.40", "0.55");
    strat.apply_trade_outcome(&mut mon, "mkt-1", TradeStatus::Cancelled);
    assert!(mon.get_market_state_clone("mkt-1").unwrap().is_normalized);
}

#[test]
fn cooldown_gates_reentry() {
    let strat = StrategyEngine::new(engine_config());
    let mut mon = normalized_monitor("0.40", "0.55");
    mon.mark_trade_executed_at("mkt-1", 1_000_000);
    // Re-normalize the market after the trade (yes at 0.40, no at 0.59:
    // the sum reaches the 0.99 threshold), then let the NO price drop
    // back to the opportunity level.
    for _ in 0..3 {
        mon.handle_book_update(one_ask_update("no-tok", "0.59", "100"), 0);
    }
    assert!(mon.get_market_state_clone("mkt-1").unwrap().is_normalized);
    mon.handle_book_update(one_ask_update("no-tok", "0.55", "100"), 0);
    assert!(mon.get_market_state_clone("mkt-1").unwrap().is_normalized);
    // 29999 ms after the trade: still cooling down. 30000: clear.
    assert!(strat.process_market_update(&mon, "mkt-1", 1_029_999).is_none());
    assert!(strat.process_market_update(&mon, "mkt-1", 1_030_000).is_some());
}

#[test]
fn liquidity_gate_blocks_thin_books() {
    let strat = StrategyEngine::new(engine_config());
    let mut mon = normalized_monitor("0.40", "0.55");
    // Required liquidity is size 10 times multiplier 5 = 50 units; a
    // 49-unit top of book fails.
    mon.handle_book_update(one_ask_update("no-tok", "0.55", "49"), 0);
    assert!(strat.process_market_update(&mon, "mkt-1", 1_000_000).is_none());
}

#[test]
fn partial_fill_triggers_emergency_unwind() {
    // The YES leg fills alone: PartialFillEmergency, safe mode latches,
    // and exactly one compensating SELL on the YES token comes back.
    let mut eng = engine();
    let (status, dump) = eng.settle_arb(
        "mkt-1", "yes-tok", "no-tok", 400_000, 550_000, TRADE_SIZE, true, false, 1_000,
    );
    assert_eq!(status, TradeStatus::PartialFillEmergency);
    let dump = dump.unwrap();
    assert_eq!(dump.token_id, "yes-tok");
    assert_eq!(dump.side, Side::Sell);
    assert_eq!(dump.price, 0);
    assert_eq!(dump.size, TRADE_SIZE);
    assert!(eng.risk_manager().is_safe_mode());
    // All later risk checks refuse.
    assert!(!eng.risk_manager().check_trade_size(1));
    assert!(eng.plan_arb("mkt-1", "yes-tok", "no-tok", 1, 1, 1, 0).is_none());
}

#[test]
fn partial_fill_of_no_leg_dumps_the_no_token() {
    let mut eng = engine();
    let (status, dump) = eng.settle_arb(
        "mkt-1", "yes-tok", "no-tok", 400_000, 550_000, TRADE_SIZE, false, true, 1_000,
    );
    assert_eq!(status, TradeStatus::PartialFillEmergency);
    assert_eq!(dump.unwrap().token_id, "no-tok");
}

#[test]
fn double_miss_is_a_plain_cancellation() {
    let mut eng = engine();
    let before = eng.risk_manager().current_balance();
    let (status, dump) = eng.settle_arb(
        "mkt-1", "yes-tok", "no-tok", 400_000, 550_000, TRADE_SIZE, false, false, 1_000,
    );
    assert_eq!(status, TradeStatus::Cancelled);
    assert!(dump.is_none());
    assert_eq!(eng.risk_manager().current_balance(), before);
    assert!(!eng.risk_manager().is_safe_mode());
}

#[test]
fn risk_gate_refuses_oversized_trades_before_submission() {
    // 1% of 1000 units allows 10 units of cost; both legs at 0.95
    // with size 10 cost 9.5 units and pass, size 11 costs 10.45 and fails.
    let eng = engine();
    assert!(eng.plan_arb("m", "y", "n", 450_000, 500_000, 10_000_000, 0).is_some());
    assert!(eng.plan_arb("m", "y", "n", 450_000, 500_000, 11_000_000, 0).is_none());
}

#[test]
fn order_payload_carries_fok_and_nonce() {
    let eng = engine();
    let (y, n) = eng.plan_arb("mkt", "yes", "no", 400_000, 550_000, TRADE_SIZE, 777).unwrap();
    assert_eq!(y.order_type, "FOK");
    assert_eq!(y.nonce, 777);
    assert_eq!(y.market_id, "mkt");
    assert_eq!(y.token_id, "yes");
    assert_eq!(y.price, 400_000);
    assert_eq!(n.token_id, "no");
    assert_eq!(n.price, 550_000);
}

#[test]
fn verify_fill_equates_acceptance_with_fill() {
    let eng = engine();
    let (y, _) = eng.plan_arb("mkt", "yes", "no", 400_000, 550_000, TRADE_SIZE, 0).unwrap();
    let id = "order-123".to_string();
    assert!(eng.verify_fill(&y, Some(&id)));
    assert!(!eng.verify_fill(&y, None));
}

#[test]
fn order_amounts_scale_to_six_decimals() {
    // size 10, price 0.5: maker carries the size, taker the cost.
    assert_eq!(order_amounts(500_000, 10_000_000), (10_000_000, 5_000_000));
    // Negative values do not fit the wire format.
    assert_eq!(order_amounts(500_000, -1), (0, 0));
}

#[test]
fn side_encodings_match_the_venue() {
    assert_eq!(side_code(Side::Buy), 0);
    assert_eq!(side_code(Side::Sell), 1);
    assert_eq!(side_label(Side::Buy), "BUY");
    assert_eq!(side_label(Side::Sell), "SELL");
}
