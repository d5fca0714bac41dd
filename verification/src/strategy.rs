//! The strategy gates: per market-changed notification, resolve the two
//! legs, require top-of-book liquidity, the normalization latch and an
//! elapsed cooldown, compute the edge, and re-validate it on freshly read
//! prices immediately before dispatch. The surrounding notification loop
//! and the dispatch itself are transport work; every decision is here.

use vstd::prelude::*;
use crate::config::{config_bounded, Config};
use crate::fixed::{scaled_mul, scaled_mul_spec, lemma_scaled_mul_bound, MICRO, QTY_LIMIT};
use crate::market::{
    best_asks_pair, has_market, market_for, market_index, side_has_liquidity, traded_state,
    with_state, MarketMonitor,
};
use crate::types::{Level, TradeStatus};

verus! {

/// Taker fee per leg, in micro-units of the fee rate.
pub const TAKER_FEE: i64 = 0;

/// Order size of each leg, in micro-units: ten units.
pub const TRADE_SIZE: i64 = 10_000_000;

/// The edge of a dual-leg opportunity: one minus the fee-adjusted
/// combined cost of the legs.
pub open spec fn edge_of(price_yes: int, price_no: int, fee: int) -> int {
    MICRO - (scaled_mul_spec(price_yes, MICRO + fee) + scaled_mul_spec(price_no, MICRO + fee))
}

/// A dispatchable opportunity: the two legs and the prices and size to
/// submit.
pub struct ArbOpportunity {
    pub yes_token: String,
    pub no_token: String,
    pub price_yes: i64,
    pub price_no: i64,
    pub size: i64,
}

/// What one market-changed notification amounts to: the two best asks,
/// where the market is known with both legs, the top of each book covers
/// the required liquidity, the market is normalized, any prior trade's
/// cooldown has elapsed, and the edge clears the configured minimum.
pub open spec fn opportunity_spec(
    cfg: Config,
    ms: Seq<crate::types::Market>,
    books: Seq<crate::types::OrderBook>,
    mid: Seq<char>,
    now: int,
) -> Option<(Level, Level)> {
    if has_market(ms, mid) && market_for(ms, mid).tokens@.len() >= 2 {
        let m = market_for(ms, mid);
        let yes = m.tokens@[0].token_id@;
        let no = m.tokens@[1].token_id@;
        let required = scaled_mul_spec(TRADE_SIZE as int, cfg.min_liquidity_multiplier as int);
        if side_has_liquidity(books, yes, required) && side_has_liquidity(books, no, required)
            && m.state.is_normalized && (match m.state.last_trade_time {
            Some(t) => now - t >= cfg.trade_cooldown_ms,
            None => true,
        }) {
            match best_asks_pair(books, yes, no) {
                Some((y, n)) => if edge_of(y.price as int, n.price as int, TAKER_FEE as int)
                    >= cfg.min_edge {
                    Some((y, n))
                } else {
                    None
                },
                None => None,
            }
        } else {
            None
        }
    } else {
        None
    }
}

/// Evaluates notifications against the market monitor and decides what to
/// dispatch; owns only its configuration.
pub struct StrategyEngine {
    config: Config,
}

impl StrategyEngine {
    pub closed spec fn spec_config(&self) -> Config {
        self.config
    }

    pub open spec fn wf(&self) -> bool {
        config_bounded(self.spec_config())
    }

    pub fn new(config: Config) -> (r: Self)
        requires
            config_bounded(config),
        ensures
            r.spec_config() == config,
            r.wf(),
    {
        StrategyEngine { config }
    }

    pub fn config(&self) -> (r: &Config)
        ensures
            *r == self.spec_config(),
    {
        &self.config
    }

    /// The opportunity check on one pair of prices: the fee-adjusted edge
    /// clears the configured minimum.
    pub fn check_opportunity(&self, price_yes: i64, price_no: i64) -> (r: bool)
        requires
            self.wf(),
            -QTY_LIMIT <= price_yes <= QTY_LIMIT,
            -QTY_LIMIT <= price_no <= QTY_LIMIT,
        ensures
            r == (edge_of(price_yes as int, price_no as int, TAKER_FEE as int)
                >= self.spec_config().min_edge),
    {
        let fee_multiplier: i64 = MICRO + TAKER_FEE;
        proof {
            lemma_scaled_mul_bound(
                price_yes as int,
                fee_multiplier as int,
                QTY_LIMIT as int,
                QTY_LIMIT as int,
            );
            lemma_scaled_mul_bound(
                price_no as int,
                fee_multiplier as int,
                QTY_LIMIT as int,
                QTY_LIMIT as int,
            );
        }
        let cost_yes = scaled_mul(price_yes, fee_multiplier);
        let cost_no = scaled_mul(price_no, fee_multiplier);
        let total_cost = cost_yes + cost_no;
        let edge = MICRO - total_cost;
        edge >= self.config.min_edge
    }

    /// Runs every gate for one market-changed notification, including the
    /// pre-dispatch re-validation on freshly read prices, and returns the
    /// opportunity to dispatch, if any.
    pub fn process_market_update(
        &self,
        monitor: &MarketMonitor,
        market_id: &str,
        now_ms: i64,
    ) -> (r: Option<ArbOpportunity>)
        requires
            self.wf(),
            monitor.wf(),
        ensures
            ({
                let o = opportunity_spec(
                    self.spec_config(),
                    monitor.markets(),
                    monitor.books(),
                    market_id@,
                    now_ms as int,
                );
                match r {
                    Some(opp) => o matches Some((y, n)) && opp.price_yes == y.price
                        && opp.price_no == n.price && opp.size == TRADE_SIZE && opp.yes_token@
                        == market_for(monitor.markets(), market_id@).tokens@[0].token_id@
                        && opp.no_token@ == market_for(
                        monitor.markets(),
                        market_id@,
                    ).tokens@[1].token_id@,
                    None => o is None,
                }
            }),
    {
        let (yes_token, no_token) = match monitor.get_market_tokens(market_id) {
            Some(t) => t,
            None => {
                return None;
            },
        };
        proof {
            lemma_scaled_mul_bound(
                TRADE_SIZE as int,
                self.config.min_liquidity_multiplier as int,
                QTY_LIMIT as int,
                QTY_LIMIT as int,
            );
        }
        let required_liquidity = scaled_mul(TRADE_SIZE, self.config.min_liquidity_multiplier);
        if !monitor.check_liquidity(yes_token.as_str(), no_token.as_str(), required_liquidity) {
            return None;
        }
        if let Some(state) = monitor.get_market_state_clone(market_id) {
            if !state.is_normalized {
                return None;
            }
            if let Some(last_trade) = state.last_trade_time {
                let elapsed: i128 = (now_ms as i128) - (last_trade as i128);
                if elapsed < self.config.trade_cooldown_ms as i128 {
                    return None;
                }
            }
        }
        if let Some((price_yes, price_no)) = monitor.get_best_asks(
            yes_token.as_str(),
            no_token.as_str(),
        ) {
            if self.check_opportunity(price_yes, price_no) {
                if let Some((final_yes, final_no)) = monitor.get_best_asks(
                    yes_token.as_str(),
                    no_token.as_str(),
                ) {
                    if self.check_opportunity(final_yes, final_no) {
                        return Some(
                            ArbOpportunity {
                                yes_token,
                                no_token,
                                price_yes: final_yes,
                                price_no: final_no,
                                size: TRADE_SIZE,
                            },
                        );
                    }
                }
            }
        }
        None
    }

    /// What happens to market state after a dispatch: a filled trade
    /// clears the normalization latch and starts the cooldown; any other
    /// status leaves the state untouched and the opportunity is not
    /// retried.
    pub fn apply_trade_outcome(
        &self,
        monitor: &mut MarketMonitor,
        market_id: &str,
        status: TradeStatus,
    )
        requires
            old(monitor).wf(),
        ensures
            final(monitor).wf(),
            final(monitor).routes() == old(monitor).routes(),
            final(monitor).books() == old(monitor).books(),
            final(monitor).spec_config() == old(monitor).spec_config(),
            status != TradeStatus::Filled ==> final(monitor).markets() == old(monitor).markets(),
            status == TradeStatus::Filled && !has_market(old(monitor).markets(), market_id@)
                ==> final(monitor).markets() == old(monitor).markets(),
            status == TradeStatus::Filled && has_market(old(monitor).markets(), market_id@)
                ==> exists|t: i64|
                final(monitor).markets() == old(monitor).markets().update(
                    market_index(old(monitor).markets(), market_id@),
                    with_state(
                        market_for(old(monitor).markets(), market_id@),
                        traded_state(market_for(old(monitor).markets(), market_id@).state, t),
                    ),
                ),
    {
        match status {
            TradeStatus::Filled => {
                monitor.mark_trade_executed(market_id);
            },
            _ => {},
        }
    }
}

} // verus!
