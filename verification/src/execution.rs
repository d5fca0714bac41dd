//! Dual-leg execution: the risk gate, the order payloads, fill
//! classification and the emergency unwind decision. The engine submits
//! both legs concurrently and classifies the jointly awaited results; the
//! submission itself is transport work and happens outside this module,
//! which decides everything around it.

use vstd::prelude::*;
use crate::config::Config;
use crate::fixed::{scaled_mul, scaled_mul_spec, lemma_scaled_mul_bound, MICRO, QTY_LIMIT,
    BALANCE_LIMIT};
use crate::risk::{enter_safe_mode_spec, record_pnl_spec, risk_allows, RiskManager, RiskModel};
use crate::types::{OrderRequest, Side, TradeStatus};

verus! {

/// Capital a dual-leg trade binds: the combined leg price times the size.
pub open spec fn arb_cost(price_yes: int, price_no: int, size: int) -> int {
    scaled_mul_spec(price_yes + price_no, size)
}

/// Profit a filled dual-leg trade realizes: one unit pays out for exactly
/// one leg, so the margin is one minus the combined price, times the
/// size.
pub open spec fn arb_profit(price_yes: int, price_no: int, size: int) -> int {
    scaled_mul_spec(MICRO - (price_yes + price_no), size)
}

/// Submits hedge legs and classifies their outcome, gated by the risk
/// manager it owns.
pub struct ExecutionEngine {
    config: Config,
    risk_manager: RiskManager,
}

impl ExecutionEngine {
    pub closed spec fn risk(&self) -> RiskModel {
        self.risk_manager@
    }

    pub closed spec fn spec_config(&self) -> Config {
        self.config
    }

    pub fn new(config: Config, risk_manager: RiskManager) -> (r: Self)
        ensures
            r.risk() == risk_manager@,
            r.spec_config() == config,
    {
        ExecutionEngine { config, risk_manager }
    }

    pub fn config(&self) -> (r: &Config)
        ensures
            *r == self.spec_config(),
    {
        &self.config
    }

    pub fn risk_manager(&self) -> (r: &RiskManager)
        ensures
            r@ == self.risk(),
    {
        &self.risk_manager
    }

    /// One leg's order payload: a fill-or-kill order at the given price
    /// and size, stamped with the caller's clock reading as nonce.
    pub fn create_order_payload(
        &self,
        market_id: &str,
        token_id: &str,
        side: Side,
        price: i64,
        size: i64,
        now_ms: i64,
    ) -> (r: OrderRequest)
        ensures
            r.market_id@ == market_id@,
            r.token_id@ == token_id@,
            r.side == side,
            r.price == price,
            r.size == size,
            r.order_type@ == "FOK"@,
            r.nonce == now_ms as u64,
    {
        OrderRequest {
            market_id: market_id.to_owned(),
            token_id: token_id.to_owned(),
            side,
            price,
            size,
            order_type: "FOK".to_owned(),
            nonce: #[verifier::truncate] (now_ms as u64),
        }
    }

    /// A leg counts as filled exactly when submission returned a venue
    /// order identifier. Under fill-or-kill semantics acceptance stands in
    /// for execution.
    pub fn verify_fill(&self, order: &OrderRequest, order_id: Option<&String>) -> (r: bool)
        ensures
            r == (order_id is Some),
    {
        match order_id {
            Some(_) => true,
            None => false,
        }
    }

    /// The risk check and the two BUY payloads of a dual-leg trade:
    /// `None` when the trade's total cost fails `check_trade_size`, the
    /// YES and NO leg orders otherwise.
    pub fn plan_arb(
        &self,
        market_id: &str,
        yes_token: &str,
        no_token: &str,
        price_yes: i64,
        price_no: i64,
        size: i64,
        now_ms: i64,
    ) -> (r: Option<(OrderRequest, OrderRequest)>)
        requires
            -QTY_LIMIT <= price_yes <= QTY_LIMIT,
            -QTY_LIMIT <= price_no <= QTY_LIMIT,
            -QTY_LIMIT <= size <= QTY_LIMIT,
        ensures
            r is Some <==> risk_allows(
                self.risk(),
                arb_cost(price_yes as int, price_no as int, size as int),
            ),
            r matches Some(p) ==> {
                &&& p.0.market_id@ == market_id@ && p.0.token_id@ == yes_token@ && p.0.side
                    == Side::Buy && p.0.price == price_yes && p.0.size == size && p.0.order_type@
                    == "FOK"@ && p.0.nonce == now_ms as u64
                &&& p.1.market_id@ == market_id@ && p.1.token_id@ == no_token@ && p.1.side
                    == Side::Buy && p.1.price == price_no && p.1.size == size && p.1.order_type@
                    == "FOK"@ && p.1.nonce == now_ms as u64
            },
    {
        let total_cost = scaled_mul(price_yes + price_no, size);
        if !self.risk_manager.check_trade_size(total_cost) {
            return None;
        }
        let order_yes = self.create_order_payload(
            market_id,
            yes_token,
            Side::Buy,
            price_yes,
            size,
            now_ms,
        );
        let order_no = self.create_order_payload(
            market_id,
            no_token,
            Side::Buy,
            price_no,
            size,
            now_ms,
        );
        Some((order_yes, order_no))
    }

    /// Classifies the jointly awaited leg results and settles:
    /// - both legs filled: the realized profit goes to the risk accounts
    ///   and the trade is `Filled`;
    /// - neither filled: no exposure, no account change, `Cancelled`;
    /// - exactly one filled: safe mode latches and the returned
    ///   compensating SELL order — one order, on the filled leg's token,
    ///   at price zero for the full size — flattens the naked position;
    ///   the trade is `PartialFillEmergency`.
    pub fn settle_arb(
        &mut self,
        market_id: &str,
        yes_token: &str,
        no_token: &str,
        price_yes: i64,
        price_no: i64,
        size: i64,
        filled_yes: bool,
        filled_no: bool,
        now_ms: i64,
    ) -> (r: (TradeStatus, Option<OrderRequest>))
        requires
            -QTY_LIMIT <= price_yes <= QTY_LIMIT,
            -QTY_LIMIT <= price_no <= QTY_LIMIT,
            -QTY_LIMIT <= size <= QTY_LIMIT,
            -BALANCE_LIMIT <= old(self).risk().daily_pnl <= BALANCE_LIMIT,
            -BALANCE_LIMIT <= old(self).risk().current_balance <= BALANCE_LIMIT,
        ensures
            final(self).spec_config() == old(self).spec_config(),
            filled_yes && filled_no ==> {
                &&& r.0 == TradeStatus::Filled
                &&& r.1 is None
                &&& final(self).risk() == record_pnl_spec(
                    old(self).risk(),
                    arb_profit(price_yes as int, price_no as int, size as int),
                )
                &&& final(self).risk().current_balance == old(self).risk().current_balance
                    + arb_profit(price_yes as int, price_no as int, size as int)
                &&& final(self).risk().daily_pnl == old(self).risk().daily_pnl + arb_profit(
                    price_yes as int,
                    price_no as int,
                    size as int,
                )
            },
            !filled_yes && !filled_no ==> r.0 == TradeStatus::Cancelled && r.1 is None
                && final(self).risk() == old(self).risk(),
            filled_yes != filled_no ==> {
                &&& r.0 == TradeStatus::PartialFillEmergency
                &&& final(self).risk() == enter_safe_mode_spec(old(self).risk())
                &&& final(self).risk().safe_mode
                &&& r.1 matches Some(d) && d.token_id@ == (if filled_yes {
                    yes_token@
                } else {
                    no_token@
                }) && d.side == Side::Sell && d.price == 0 && d.size == size && d.market_id@
                    == market_id@ && d.order_type@ == "FOK"@
            },
    {
        if filled_yes && filled_no {
            proof {
                lemma_scaled_mul_bound(
                    MICRO - (price_yes + price_no) as int,
                    size as int,
                    3 * QTY_LIMIT as int,
                    QTY_LIMIT as int,
                );
            }
            let profit = scaled_mul(MICRO - (price_yes + price_no), size);
            self.risk_manager.record_pnl(profit);
            (TradeStatus::Filled, None)
        } else if !filled_yes && !filled_no {
            (TradeStatus::Cancelled, None)
        } else {
            let (status, dump) = self.handle_emergency(
                market_id,
                yes_token,
                no_token,
                filled_yes,
                filled_no,
                size,
                now_ms,
            );
            (status, Some(dump))
        }
    }

    /// The emergency unwind decision: latch safe mode and build the one
    /// compensating SELL that flattens the filled leg — at price zero, a
    /// dump-at-any-price proxy.
    fn handle_emergency(
        &mut self,
        market_id: &str,
        yes_token: &str,
        no_token: &str,
        filled_yes: bool,
        filled_no: bool,
        size: i64,
        now_ms: i64,
    ) -> (r: (TradeStatus, OrderRequest))
        ensures
            final(self).spec_config() == old(self).spec_config(),
            final(self).risk() == enter_safe_mode_spec(old(self).risk()),
            r.0 == TradeStatus::PartialFillEmergency,
            r.1.token_id@ == (if filled_yes {
                yes_token@
            } else {
                no_token@
            }),
            r.1.side == Side::Sell,
            r.1.price == 0,
            r.1.size == size,
            r.1.market_id@ == market_id@,
            r.1.order_type@ == "FOK"@,
    {
        self.risk_manager.enter_safe_mode();
        let token_to_dump = if filled_yes {
            yes_token
        } else {
            no_token
        };
        let dump = self.create_order_payload(market_id, token_to_dump, Side::Sell, 0, size, now_ms);
        (TradeStatus::PartialFillEmergency, dump)
    }
}

/// Maker and taker amounts of one leg in six-decimal fixed point, as the
/// venue's typed order carries them: the size, and the size times the
/// price; a negative amount does not fit the wire format and becomes
/// zero.
pub fn order_amounts(price: i64, size: i64) -> (r: (u64, u64))
    requires
        -QTY_LIMIT <= price <= QTY_LIMIT,
        -QTY_LIMIT <= size <= QTY_LIMIT,
    ensures
        r.0 == (if size >= 0 {
            size as u64
        } else {
            0u64
        }),
        r.1 as int == (if scaled_mul_spec(size as int, price as int) >= 0 {
            scaled_mul_spec(size as int, price as int)
        } else {
            0
        }),
{
    let maker: u64 = if size >= 0 {
        size as u64
    } else {
        0
    };
    let t = scaled_mul(size, price);
    let taker: u64 = if t >= 0 {
        t as u64
    } else {
        0
    };
    (maker, taker)
}

/// The wire encoding of an order side: zero buys, one sells.
pub fn side_code(side: Side) -> (r: u8)
    ensures
        r == (match side {
            Side::Buy => 0u8,
            Side::Sell => 1u8,
        }),
{
    match side {
        Side::Buy => 0,
        Side::Sell => 1,
    }
}

/// The request encoding of an order side.
pub fn side_label(side: Side) -> (r: &'static str)
    ensures
        side == Side::Buy ==> r@ == "BUY"@,
        side == Side::Sell ==> r@ == "SELL"@,
{
    match side {
        Side::Buy => "BUY",
        Side::Sell => "SELL",
    }
}

} // verus!
