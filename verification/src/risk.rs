//! Balance, profit-and-loss and safe-mode tracking. The safe-mode flag is
//! an irreversible latch: no operation of this module clears it.

use vstd::prelude::*;
use crate::fixed::MICRO;

verus! {

/// Mathematical model of the risk accounts, over unbounded integers.
pub struct RiskModel {
    pub initial_balance: int,
    pub current_balance: int,
    pub daily_pnl: int,
    pub safe_mode: bool,
    pub max_daily_loss_pct: int,
    pub max_trade_capital_pct: int,
}

/// The configured daily loss limit is breached when the loss exceeds
/// `initial_balance * max_daily_loss_pct` (both sides taken exactly, as
/// rationals scaled by `MICRO`).
pub open spec fn loss_limit_breached(m: RiskModel) -> bool {
    m.daily_pnl * (MICRO as int) < -(m.initial_balance * m.max_daily_loss_pct)
}

/// A trade of the given cost passes the risk gate: not in safe mode, the
/// cost within `current_balance * max_trade_capital_pct`, and the daily
/// loss limit not breached.
pub open spec fn risk_allows(m: RiskModel, required: int) -> bool {
    &&& !m.safe_mode
    &&& required * (MICRO as int) <= m.current_balance * m.max_trade_capital_pct
    &&& !loss_limit_breached(m)
}

/// Recording a profit-and-loss delta: both accounts move by the delta,
/// and safe mode latches if the updated loss breaches the limit.
pub open spec fn record_pnl_spec(m: RiskModel, pnl: int) -> RiskModel {
    let updated = RiskModel {
        daily_pnl: m.daily_pnl + pnl,
        current_balance: m.current_balance + pnl,
        ..m
    };
    RiskModel { safe_mode: m.safe_mode || loss_limit_breached(updated), ..updated }
}

pub open spec fn enter_safe_mode_spec(m: RiskModel) -> RiskModel {
    RiskModel { safe_mode: true, ..m }
}

/// Tracks balances and the safe-mode latch. In the running engine one
/// task owns it at a time; critical sections never span network calls.
pub struct RiskManager {
    initial_balance: i64,
    current_balance: i64,
    daily_pnl: i64,
    safe_mode: bool,
    max_daily_loss_pct: i64,
    max_trade_capital_pct: i64,
}

impl View for RiskManager {
    type V = RiskModel;

    closed spec fn view(&self) -> RiskModel {
        RiskModel {
            initial_balance: self.initial_balance as int,
            current_balance: self.current_balance as int,
            daily_pnl: self.daily_pnl as int,
            safe_mode: self.safe_mode,
            max_daily_loss_pct: self.max_daily_loss_pct as int,
            max_trade_capital_pct: self.max_trade_capital_pct as int,
        }
    }
}

impl RiskManager {
    /// Starts with the configured balance, zero profit-and-loss and safe
    /// mode off.
    pub fn new(initial_balance: i64, max_daily_loss_pct: i64, max_trade_capital_pct: i64) -> (r:
        Self)
        ensures
            r@ == (RiskModel {
                initial_balance: initial_balance as int,
                current_balance: initial_balance as int,
                daily_pnl: 0,
                safe_mode: false,
                max_daily_loss_pct: max_daily_loss_pct as int,
                max_trade_capital_pct: max_trade_capital_pct as int,
            }),
    {
        RiskManager {
            initial_balance,
            current_balance: initial_balance,
            daily_pnl: 0,
            safe_mode: false,
            max_daily_loss_pct,
            max_trade_capital_pct,
        }
    }

    /// The risk gate: false in safe mode whatever the requested amount,
    /// false when the amount exceeds the capital share, false when the
    /// daily loss limit is breached; true otherwise.
    pub fn check_trade_size(&self, required_amount: i64) -> (r: bool)
        ensures
            r == risk_allows(self@, required_amount as int),
            self@.safe_mode ==> r == false,
    {
        if self.safe_mode {
            return false;
        }
        proof {
            lemma_i64_products_fit(required_amount, MICRO);
            lemma_i64_products_fit(self.current_balance, self.max_trade_capital_pct);
            lemma_i64_products_fit(self.daily_pnl, MICRO);
            lemma_i64_products_fit(self.initial_balance, self.max_daily_loss_pct);
        }
        let max_trade_scaled: i128 = (self.current_balance as i128)
            * (self.max_trade_capital_pct as i128);
        if (required_amount as i128) * (MICRO as i128) > max_trade_scaled {
            return false;
        }
        let loss_limit_scaled: i128 = (self.initial_balance as i128)
            * (self.max_daily_loss_pct as i128);
        if (self.daily_pnl as i128) * (MICRO as i128) < -loss_limit_scaled {
            return false;
        }
        true
    }

    /// Moves both accounts by the delta and latches safe mode if the
    /// updated daily loss breaches the limit.
    pub fn record_pnl(&mut self, pnl: i64)
        requires
            i64::MIN <= old(self)@.daily_pnl + pnl <= i64::MAX,
            i64::MIN <= old(self)@.current_balance + pnl <= i64::MAX,
        ensures
            final(self)@ == record_pnl_spec(old(self)@, pnl as int),
    {
        self.daily_pnl = self.daily_pnl + pnl;
        self.current_balance = self.current_balance + pnl;
        proof {
            lemma_i64_products_fit(self.daily_pnl, MICRO);
            lemma_i64_products_fit(self.initial_balance, self.max_daily_loss_pct);
        }
        let loss_limit_scaled: i128 = (self.initial_balance as i128)
            * (self.max_daily_loss_pct as i128);
        if (self.daily_pnl as i128) * (MICRO as i128) < -loss_limit_scaled {
            self.safe_mode = true;
        }
    }

    /// Manual or emergency trigger; idempotent.
    pub fn enter_safe_mode(&mut self)
        ensures
            final(self)@ == enter_safe_mode_spec(old(self)@),
    {
        self.safe_mode = true;
    }

    pub fn is_safe_mode(&self) -> (r: bool)
        ensures
            r == self@.safe_mode,
    {
        self.safe_mode
    }

    pub fn daily_pnl(&self) -> (r: i64)
        ensures
            r == self@.daily_pnl,
    {
        self.daily_pnl
    }

    pub fn current_balance(&self) -> (r: i64)
        ensures
            r == self@.current_balance,
    {
        self.current_balance
    }
}

/// The product of two 64-bit values always fits a 128-bit value.
proof fn lemma_i64_products_fit(a: i64, b: i64)
    ensures
        -0x40000000000000000000000000000000 <= (a as int) * (b as int)
            <= 0x40000000000000000000000000000000,
{
    assert(-0x40000000000000000000000000000000 <= (a as int) * (b as int)
        <= 0x40000000000000000000000000000000) by (nonlinear_arith)
        requires
            -0x8000000000000000 <= a <= 0x7fffffffffffffff,
            -0x8000000000000000 <= b <= 0x7fffffffffffffff,
    ;
}

/// Sum of a sequence of deltas.
pub open spec fn sum_of(ds: Seq<int>) -> int
    decreases ds.len(),
{
    if ds.len() == 0 {
        0
    } else {
        sum_of(ds.drop_last()) + ds.last()
    }
}

/// The model after recording each delta of a sequence in turn.
pub open spec fn apply_pnls(m: RiskModel, ds: Seq<int>) -> RiskModel
    decreases ds.len(),
{
    if ds.len() == 0 {
        m
    } else {
        record_pnl_spec(apply_pnls(m, ds.drop_last()), ds.last())
    }
}

/// Law: `record_pnl` is additive. After recording any sequence of deltas,
/// `daily_pnl` and `current_balance` each hold their starting value plus
/// the sum of the deltas.
pub proof fn lemma_record_pnl_additive(m: RiskModel, ds: Seq<int>)
    ensures
        apply_pnls(m, ds).daily_pnl == m.daily_pnl + sum_of(ds),
        apply_pnls(m, ds).current_balance == m.current_balance + sum_of(ds),
    decreases ds.len(),
{
    if ds.len() > 0 {
        lemma_record_pnl_additive(m, ds.drop_last());
    }
}

/// An operation on the risk accounts: a recorded delta or a safe-mode
/// trigger. Queries do not change the state.
pub enum RiskEvent {
    Pnl(int),
    EnterSafeMode,
}

pub open spec fn apply_event(m: RiskModel, e: RiskEvent) -> RiskModel {
    match e {
        RiskEvent::Pnl(d) => record_pnl_spec(m, d),
        RiskEvent::EnterSafeMode => enter_safe_mode_spec(m),
    }
}

pub open spec fn apply_events(m: RiskModel, es: Seq<RiskEvent>) -> RiskModel
    decreases es.len(),
{
    if es.len() == 0 {
        m
    } else {
        apply_event(apply_events(m, es.drop_last()), es.last())
    }
}

/// Law: safe mode is an irreversible latch. Once set, no sequence of
/// operations on the component clears it.
pub proof fn lemma_safe_mode_latches(m: RiskModel, es: Seq<RiskEvent>)
    requires
        m.safe_mode,
    ensures
        apply_events(m, es).safe_mode,
    decreases es.len(),
{
    if es.len() > 0 {
        lemma_safe_mode_latches(m, es.drop_last());
    }
}

/// Law: once a recorded delta pushes `daily_pnl` past the configured loss
/// limit, safe mode turns on and stays on for the component's lifetime.
pub proof fn lemma_loss_limit_triggers_safe_mode(m: RiskModel, d: int, es: Seq<RiskEvent>)
    requires
        loss_limit_breached(record_pnl_spec(m, d)),
    ensures
        record_pnl_spec(m, d).safe_mode,
        apply_events(record_pnl_spec(m, d), es).safe_mode,
{
    lemma_safe_mode_latches(record_pnl_spec(m, d), es);
}

} // verus!
