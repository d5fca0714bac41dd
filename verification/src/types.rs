//! Data types shared across the engine. Prices, sizes and balances are
//! `i64` micro-unit quantities (see `fixed`).

use vstd::prelude::*;
use crate::fixed::QTY_LIMIT;
use crate::parse::{micro_of_str, parse_micro};

verus! {

/// Equality of an owned identifier and a borrowed one.
pub fn string_eq_str(s: &String, t: &str) -> (r: bool)
    ensures
        r == (s@ == t@),
{
    let u = t.to_owned();
    *s == u
}

#[derive(Debug, Clone, Copy, PartialEq, Eq, Structural)]
pub enum Side {
    Buy,
    Sell,
}

/// Outcome of a dual-leg arbitrage attempt.
#[derive(Debug, Clone, Copy, PartialEq, Eq, Structural)]
pub enum TradeStatus {
    Pending,
    Filled,
    PartialFillEmergency,
    Failed,
    Cancelled,
}

/// One price level of an order book: price and size in micro-units.
#[derive(Debug, Clone, Copy, PartialEq, Eq, Structural)]
pub struct Level {
    pub price: i64,
    pub size: i64,
}

/// A level the engine stores: both quantities within the global bound,
/// so that sums and products of levels stay representable.
pub open spec fn valid_level(l: Level) -> bool {
    &&& -QTY_LIMIT <= l.price <= QTY_LIMIT
    &&& -QTY_LIMIT <= l.size <= QTY_LIMIT
}

pub open spec fn valid_levels(ls: Seq<Level>) -> bool {
    forall|i: int| 0 <= i < ls.len() ==> valid_level(#[trigger] ls[i])
}

/// One tradable outcome token of a market.
pub struct Token {
    pub token_id: String,
    pub outcome: String,
    pub price: i64,
    pub winner: bool,
}

/// Local per-market trading state: the normalization latch, its counter,
/// the time of the last executed trade and the last observed edge.
#[derive(Debug, Clone, Copy, PartialEq, Eq, Structural)]
pub struct MarketState {
    pub last_trade_time: Option<i64>,
    pub is_normalized: bool,
    pub consecutive_normalized_updates: u32,
    pub last_edge: i64,
}

impl MarketState {
    /// The state a market starts in: no trade yet, not normalized.
    pub open spec fn initial() -> MarketState {
        MarketState {
            last_trade_time: None,
            is_normalized: false,
            consecutive_normalized_updates: 0,
            last_edge: 0,
        }
    }
}

impl Default for MarketState {
    fn default() -> (r: Self)
        ensures
            r == MarketState::initial(),
    {
        MarketState {
            last_trade_time: None,
            is_normalized: false,
            consecutive_normalized_updates: 0,
            last_edge: 0,
        }
    }
}

/// A discovered market and its local state.
pub struct Market {
    pub condition_id: String,
    pub question: String,
    pub tokens: Vec<Token>,
    pub active: bool,
    pub closed: bool,
    pub accepting_orders: bool,
    pub end_date_iso: Option<String>,
    pub tags: Option<Vec<String>>,
    pub state: MarketState,
}

/// A page of discovered markets.
pub struct MarketResponse {
    pub data: Vec<Market>,
    pub next_cursor: Option<String>,
}

/// The latest full book snapshot for one asset. `timestamp` is in
/// milliseconds.
pub struct OrderBook {
    pub market_id: String,
    pub asset_id: String,
    pub bids: Vec<Level>,
    pub asks: Vec<Level>,
    pub timestamp: i64,
}

pub open spec fn valid_book(b: &OrderBook) -> bool {
    &&& valid_levels(b.bids@)
    &&& valid_levels(b.asks@)
}

/// Parameters of one order leg handed to the submission layer.
pub struct OrderRequest {
    pub market_id: String,
    pub token_id: String,
    pub side: Side,
    pub price: i64,
    pub size: i64,
    pub order_type: String,
    pub nonce: u64,
}

/// Record of one arbitrage attempt.
pub struct TradeEvent {
    pub id: u128,
    pub market_id: String,
    pub yes_price: i64,
    pub no_price: i64,
    pub edge: i64,
    pub timestamp: i64,
    pub status: TradeStatus,
    pub logs: Vec<String>,
}

/// Subscribe control message for the streaming feed.
pub struct WsSubscribeMsg {
    pub msg_type: String,
    pub asset_ids: Vec<String>,
    pub channels: Vec<String>,
}

/// A message from the streaming feed, already shed of its wire encoding.
pub enum WsMessage {
    Book(WsBookUpdate),
    Unknown,
}

/// A full book snapshot as the feed delivers it: levels and timestamp
/// still as strings.
pub struct WsBookUpdate {
    pub asset_id: String,
    pub bids: Vec<WsLevel>,
    pub asks: Vec<WsLevel>,
    pub hash: String,
    pub timestamp: String,
}

/// A feed level: price and size as decimal strings.
pub struct WsLevel(pub String, pub String);

/// The stored level a feed level denotes: both decimal strings rescaled
/// to micro-units, or `None` where either fails to parse or to fit.
pub open spec fn ws_level_spec(p: Seq<char>, s: Seq<char>) -> Option<Level> {
    match (micro_of_str(p), micro_of_str(s)) {
        (Some(pv), Some(sv)) => Some(Level { price: pv as i64, size: sv as i64 }),
        _ => None,
    }
}

impl WsLevel {
    /// Parses the two decimal strings of a feed level into a stored level.
    pub fn to_level(&self) -> (r: Option<Level>)
        ensures
            r == ws_level_spec(self.0@, self.1@),
            r matches Some(l) ==> valid_level(l),
    {
        let price = match parse_micro(self.0.as_str()) {
            Some(p) => p,
            None => {
                return None;
            },
        };
        let size = match parse_micro(self.1.as_str()) {
            Some(s) => s,
            None => {
                return None;
            },
        };
        Some(Level { price, size })
    }
}

} // verus!
