use arb_engine::risk::RiskManager;

// Balances in micro-units: 1000 units starting balance, 2% daily loss
// limit, 1% per-trade capital share.
fn manager() -> RiskManager {
    RiskManager::new(1_000_000_000, 20_000, 10_000)
}

#[test]
fn check_trade_size_false_in_safe_mode_regardless_of_amount() {
    let mut rm = manager();
    rm.enter_safe_mode();
    assert!(rm.is_safe_mode());
    assert!(!rm.check_trade_size(0));
    assert!(!rm.check_trade_size(1));
    assert!(!rm.check_trade_size(-5));
    assert!(!rm.check_trade_size(1_000_000_000));
}

#[test]
fn check_trade_size_enforces_capital_share() {
    let rm = manager();
    // 1% of 1000 units is 10 units = 10_000_000 micro.
    assert!(rm.check_trade_size(10_000_000));
    assert!(!rm.check_trade_size(10_000_001));
}

#[test]
fn record_pnl_is_additive() {
    let mut rm = manager();
    rm.record_pnl(5_000_000);
    rm.record_pnl(-3_000_000);
    rm.record_pnl(1_000_000);
    assert_eq!(rm.daily_pnl(), 3_000_000);
    assert_eq!(rm.current_balance(), 1_003_000_000);
}

#[test]
fn loss_limit_latches_safe_mode_forever() {
    let mut rm = manager();
    // The limit is 2% of 1000 units: a 20-unit loss. One micro beyond it
    // latches safe mode.
    rm.record_pnl(-20_000_000);
    assert!(!rm.is_safe_mode());
    assert!(rm.check_trade_size(1_000_000));
    rm.record_pnl(-1);
    assert!(rm.is_safe_mode());
    // No later profit clears the latch, and every trade is refused.
    rm.record_pnl(100_000_000);
    assert!(rm.is_safe_mode());
    assert!(!rm.check_trade_size(1));
}

#[test]
fn enter_safe_mode_is_idempotent() {
    let mut rm = manager();
    rm.enter_safe_mode();
    rm.enter_safe_mode();
    assert!(rm.is_safe_mode());
}

#[test]
fn exact_loss_limit_does_not_trip() {
    let mut rm = manager();
    // A loss equal to the limit is not beyond it.
    rm.record_pnl(-20_000_000);
    assert!(!rm.is_safe_mode());
}
