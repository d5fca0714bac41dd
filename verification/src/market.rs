//! The market monitor: the table of discovered markets, the token-to-
//! market index, the order-book store, and the per-market normalization
//! state machine that every book update drives.

use vstd::prelude::*;
use crate::config::Config;
use crate::fixed::{MICRO, QTY_LIMIT};
use crate::orderbook::{
    best_ask_of, best_ask_level, book_for, has_book, ingest_spec, store_ingest, unique_assets,
};
use crate::parse::{i64_of_bytes, parse_i64_dec};
use crate::types::{
    valid_book, valid_level, valid_levels, ws_level_spec, Level, Market, MarketState, OrderBook,
    Token, WsBookUpdate, WsLevel, WsMessage, string_eq_str,
};

verus! {

/// The best ask of each leg, where both legs have a stored book with a
/// non-empty ask side.
pub open spec fn best_asks_pair(books: Seq<OrderBook>, yes: Seq<char>, no: Seq<char>) -> Option<
    (Level, Level),
> {
    if has_book(books, yes) && has_book(books, no) {
        match (best_ask_of(book_for(books, yes).asks@), best_ask_of(book_for(books, no).asks@)) {
            (Some(y), Some(n)) => Some((y, n)),
            _ => None,
        }
    } else {
        None
    }
}

/// The combined best-ask price of the two legs, where both are quoted.
pub open spec fn norm_sum(books: Seq<OrderBook>, yes: Seq<char>, no: Seq<char>) -> Option<int> {
    match best_asks_pair(books, yes, no) {
        Some((y, n)) => Some(y.price + n.price),
        None => None,
    }
}

/// The token has a stored book whose single best ask covers the required
/// size. Only top-of-book depth counts, not cumulative depth.
pub open spec fn side_has_liquidity(books: Seq<OrderBook>, token: Seq<char>, required: int) -> bool {
    &&& has_book(books, token)
    &&& match best_ask_of(book_for(books, token).asks@) {
        Some(l) => l.size >= required,
        None => false,
    }
}

/// One normalization reading applied to a market's state. A qualifying
/// reading (`sum >= threshold`) advances the consecutive counter and
/// latches `is_normalized` once the counter reaches the configured count;
/// a non-qualifying reading resets the counter to zero without clearing
/// an already-latched flag. The last observed edge is recorded either
/// way.
pub open spec fn norm_step(st: MarketState, sum: int, threshold: int, needed: u32) -> MarketState {
    if sum >= threshold {
        let c: u32 = if st.consecutive_normalized_updates < u32::MAX {
            (st.consecutive_normalized_updates + 1) as u32
        } else {
            u32::MAX
        };
        MarketState {
            last_trade_time: st.last_trade_time,
            is_normalized: st.is_normalized || c >= needed,
            consecutive_normalized_updates: c,
            last_edge: (MICRO - sum) as i64,
        }
    } else {
        MarketState {
            last_trade_time: st.last_trade_time,
            is_normalized: st.is_normalized,
            consecutive_normalized_updates: 0,
            last_edge: (MICRO - sum) as i64,
        }
    }
}

/// A market row with its state replaced.
pub open spec fn with_state(m: Market, st: MarketState) -> Market {
    Market { state: st, ..m }
}

/// The state a market takes when a trade executes on it: the latch
/// cleared, the counter reset, the cooldown clock started.
pub open spec fn traded_state(st: MarketState, now_ms: i64) -> MarketState {
    MarketState {
        last_trade_time: Some(now_ms),
        is_normalized: false,
        consecutive_normalized_updates: 0,
        last_edge: st.last_edge,
    }
}

/// The market table after one normalization pass for `mid` against the
/// given books: untouched unless the market exists, has its two legs and
/// both legs are quoted.
pub open spec fn markets_after_norm(
    ms: Seq<Market>,
    books: Seq<OrderBook>,
    threshold: int,
    needed: u32,
    mid: Seq<char>,
) -> Seq<Market> {
    if has_market(ms, mid) && market_for(ms, mid).tokens@.len() >= 2 {
        let m = market_for(ms, mid);
        match norm_sum(books, m.tokens@[0].token_id@, m.tokens@[1].token_id@) {
            Some(sum) => ms.update(
                market_index(ms, mid),
                with_state(m, norm_step(m.state, sum, threshold, needed)),
            ),
            None => ms,
        }
    } else {
        ms
    }
}

/// The stored levels a sequence of feed levels denotes: each level that
/// parses and fits, in order; the rest dropped.
pub open spec fn levels_of(raw: Seq<WsLevel>) -> Seq<Level>
    decreases raw.len(),
{
    if raw.len() == 0 {
        Seq::<Level>::empty()
    } else {
        let rest = levels_of(raw.drop_last());
        match ws_level_spec(raw.last().0@, raw.last().1@) {
            Some(l) => rest.push(l),
            None => rest,
        }
    }
}

/// A feed timestamp brought to milliseconds: values above two billion are
/// already milliseconds, plausible second counts are scaled, anything
/// else falls back to the time of ingestion.
pub open spec fn normalize_ts(ts: int, fallback: int) -> int {
    if ts > 2_000_000_000 {
        ts
    } else if ts >= -9_000_000_000_000_000 {
        ts * 1000
    } else {
        fallback
    }
}

/// The stored timestamp of a book update: its timestamp string read as an
/// integer (zero where unreadable), normalized to milliseconds.
pub open spec fn update_ts(raw: Seq<u8>, fallback: int) -> int {
    normalize_ts(
        match i64_of_bytes(raw) {
            Some(v) => v,
            None => 0,
        },
        fallback,
    )
}

/// How one applied book snapshot relates the monitor before (`m0`) and
/// after (`m1`): for a known asset, the stored book for it is replaced by
/// the parsed snapshot, every other book is untouched, and one
/// normalization pass runs for the owning market, whose identifier comes
/// back; an update for an unknown asset changes nothing.
pub open spec fn book_update_post(
    m0: MarketMonitor,
    m1: MarketMonitor,
    update: WsBookUpdate,
    now_ms: i64,
    r: Option<String>,
) -> bool {
    &&& m1.routes() == m0.routes()
    &&& m1.spec_config() == m0.spec_config()
    &&& (!has_route(m0.routes(), update.asset_id@) ==> r is None && m1.books() == m0.books()
        && m1.markets() == m0.markets())
    &&& (has_route(m0.routes(), update.asset_id@) ==> {
        let mid = route_for(m0.routes(), update.asset_id@).market_id;
        &&& r matches Some(out) && out@ == mid@
        &&& has_book(m1.books(), update.asset_id@)
        &&& {
            let nb = book_for(m1.books(), update.asset_id@);
            &&& nb.asks@ == levels_of(update.asks@)
            &&& nb.bids@ == levels_of(update.bids@)
            &&& nb.asset_id@ == update.asset_id@
            &&& nb.market_id@ == mid@
            &&& nb.timestamp == update_ts(vstd::utf8::encode_utf8(update.timestamp@), now_ms as int)
        }
        &&& forall|a: Seq<char>|
            a != update.asset_id@ ==> #[trigger] has_book(m1.books(), a) == has_book(m0.books(), a)
                && (has_book(m0.books(), a) ==> book_for(m1.books(), a) == book_for(m0.books(), a))
        &&& m1.markets() == markets_after_norm(
            m0.markets(),
            m1.books(),
            m0.spec_config().normalization_threshold as int,
            m0.spec_config().normalization_updates,
            mid@,
        )
    })
}

/// Route from a token to the market that owns it.
pub struct TokenRoute {
    pub token_id: String,
    pub market_id: String,
}

/// No two table entries share a market identifier.
pub open spec fn unique_market_ids(ms: Seq<Market>) -> bool {
    forall|i: int, j: int|
        0 <= i < j < ms.len() ==> #[trigger] ms[i].condition_id@ != #[trigger] ms[j].condition_id@
}

pub open spec fn has_market(ms: Seq<Market>, id: Seq<char>) -> bool {
    exists|i: int| 0 <= i < ms.len() && #[trigger] ms[i].condition_id@ == id
}

pub open spec fn market_index(ms: Seq<Market>, id: Seq<char>) -> int {
    choose|i: int| 0 <= i < ms.len() && #[trigger] ms[i].condition_id@ == id
}

pub open spec fn market_for(ms: Seq<Market>, id: Seq<char>) -> Market {
    ms[market_index(ms, id)]
}

/// Insert-or-replace keyed by the market identifier.
pub open spec fn market_insert(ms: Seq<Market>, m: Market) -> Seq<Market> {
    if has_market(ms, m.condition_id@) {
        ms.update(market_index(ms, m.condition_id@), m)
    } else {
        ms.push(m)
    }
}

/// No two routes share a token identifier.
pub open spec fn unique_routes(rs: Seq<TokenRoute>) -> bool {
    forall|i: int, j: int|
        0 <= i < j < rs.len() ==> #[trigger] rs[i].token_id@ != #[trigger] rs[j].token_id@
}

pub open spec fn has_route(rs: Seq<TokenRoute>, token: Seq<char>) -> bool {
    exists|i: int| 0 <= i < rs.len() && #[trigger] rs[i].token_id@ == token
}

pub open spec fn route_index(rs: Seq<TokenRoute>, token: Seq<char>) -> int {
    choose|i: int| 0 <= i < rs.len() && #[trigger] rs[i].token_id@ == token
}

pub open spec fn route_for(rs: Seq<TokenRoute>, token: Seq<char>) -> TokenRoute {
    rs[route_index(rs, token)]
}

/// Insert-or-replace keyed by the token identifier.
pub open spec fn route_insert(rs: Seq<TokenRoute>, r: TokenRoute) -> Seq<TokenRoute> {
    if has_route(rs, r.token_id@) {
        rs.update(route_index(rs, r.token_id@), r)
    } else {
        rs.push(r)
    }
}

/// Routes after registering every token of a market, in order.
pub open spec fn routes_add(rs: Seq<TokenRoute>, tokens: Seq<Token>, mid: String) -> Seq<
    TokenRoute,
>
    decreases tokens.len(),
{
    if tokens.len() == 0 {
        rs
    } else {
        route_insert(
            routes_add(rs, tokens.drop_last(), mid),
            TokenRoute { token_id: tokens.last().token_id, market_id: mid },
        )
    }
}

/// Every stored book holds only levels within the global bounds.
pub open spec fn valid_stored_books(books: Seq<OrderBook>) -> bool {
    forall|i: int| 0 <= i < books.len() ==> valid_book(&books[i])
}

/// A tag that marks a market as a recognized crypto category.
pub open spec fn is_crypto_tag(t: Seq<char>) -> bool {
    ||| t == "Crypto"@
    ||| t == "Bitcoin"@
    ||| t == "Ethereum"@
    ||| t == "Solana"@
}

/// A market the engine will track: active, accepting orders, exactly two
/// outcome tokens, and tagged with a recognized crypto category.
pub open spec fn valid_crypto_market(m: &Market) -> bool {
    &&& m.active
    &&& m.accepting_orders
    &&& m.tokens@.len() == 2
    &&& match m.tags {
        Some(tags) => exists|i: int| 0 <= i < tags@.len() && is_crypto_tag(#[trigger] tags@[i]@),
        None => false,
    }
}

/// Maintains the latest book per asset, the market table and each
/// market's normalization state. In the running engine the feed task
/// writes exclusively; strategy evaluation reads.
pub struct MarketMonitor {
    active_markets: Vec<Market>,
    token_to_market: Vec<TokenRoute>,
    order_books: Vec<OrderBook>,
    config: Config,
}

impl MarketMonitor {
    pub closed spec fn markets(&self) -> Seq<Market> {
        self.active_markets@
    }

    pub closed spec fn routes(&self) -> Seq<TokenRoute> {
        self.token_to_market@
    }

    pub closed spec fn books(&self) -> Seq<OrderBook> {
        self.order_books@
    }

    pub closed spec fn spec_config(&self) -> Config {
        self.config
    }

    /// Table keys are unique and every stored level is within bounds.
    pub open spec fn wf(&self) -> bool {
        &&& unique_market_ids(self.markets())
        &&& unique_routes(self.routes())
        &&& unique_assets(self.books())
        &&& valid_stored_books(self.books())
    }

    /// An empty monitor for the given configuration.
    pub fn new(config: Config) -> (r: Self)
        ensures
            r.wf(),
            r.markets() == Seq::<Market>::empty(),
            r.routes() == Seq::<TokenRoute>::empty(),
            r.books() == Seq::<OrderBook>::empty(),
            r.spec_config() == config,
    {
        MarketMonitor {
            active_markets: Vec::new(),
            token_to_market: Vec::new(),
            order_books: Vec::new(),
            config,
        }
    }

    pub fn config(&self) -> (r: &Config)
        ensures
            *r == self.spec_config(),
    {
        &self.config
    }

    /// Index of the market with the given identifier.
    fn find_market_index(&self, market_id: &str) -> (r: Option<usize>)
        requires
            self.wf(),
        ensures
            match r {
                Some(j) => has_market(self.markets(), market_id@) && j == market_index(
                    self.markets(),
                    market_id@,
                ) && j < self.markets().len(),
                None => !has_market(self.markets(), market_id@),
            },
    {
        let n = self.active_markets.len();
        let mut i: usize = 0;
        while i < n
            invariant
                self.wf(),
                i <= n == self.markets().len(),
                forall|k: int| 0 <= k < i ==> #[trigger] self.markets()[k].condition_id@
                    != market_id@,
            decreases n - i,
        {
            if string_eq_str(&self.active_markets[i].condition_id, market_id) {
                proof {
                    let j = market_index(self.markets(), market_id@);
                    assert(self.markets()[i as int].condition_id@ == market_id@);
                    assert(0 <= j < self.markets().len() && self.markets()[j].condition_id@
                        == market_id@);
                }
                return Some(i);
            }
            i = i + 1;
        }
        None
    }

    /// Index of the route for the given token.
    fn find_route_index(&self, token_id: &str) -> (r: Option<usize>)
        requires
            self.wf(),
        ensures
            match r {
                Some(j) => has_route(self.routes(), token_id@) && j == route_index(
                    self.routes(),
                    token_id@,
                ) && j < self.routes().len(),
                None => !has_route(self.routes(), token_id@),
            },
    {
        let n = self.token_to_market.len();
        let mut i: usize = 0;
        while i < n
            invariant
                self.wf(),
                i <= n == self.routes().len(),
                forall|k: int| 0 <= k < i ==> #[trigger] self.routes()[k].token_id@ != token_id@,
            decreases n - i,
        {
            if string_eq_str(&self.token_to_market[i].token_id, token_id) {
                proof {
                    let j = route_index(self.routes(), token_id@);
                    assert(self.routes()[i as int].token_id@ == token_id@);
                    assert(0 <= j < self.routes().len() && self.routes()[j].token_id@ == token_id@);
                }
                return Some(i);
            }
            i = i + 1;
        }
        None
    }

    /// Index of the stored book for the given asset.
    fn find_book_index(&self, asset: &str) -> (r: Option<usize>)
        requires
            self.wf(),
        ensures
            match r {
                Some(j) => has_book(self.books(), asset@) && j == crate::orderbook::book_index(
                    self.books(),
                    asset@,
                ) && j < self.books().len(),
                None => !has_book(self.books(), asset@),
            },
    {
        let n = self.order_books.len();
        let mut i: usize = 0;
        while i < n
            invariant
                self.wf(),
                i <= n == self.books().len(),
                forall|k: int| 0 <= k < i ==> #[trigger] self.books()[k].asset_id@ != asset@,
            decreases n - i,
        {
            if string_eq_str(&self.order_books[i].asset_id, asset) {
                proof {
                    let j = crate::orderbook::book_index(self.books(), asset@);
                    assert(self.books()[i as int].asset_id@ == asset@);
                    assert(0 <= j < self.books().len() && self.books()[j].asset_id@ == asset@);
                }
                return Some(i);
            }
            i = i + 1;
        }
        None
    }

    /// True for a market the engine will track: active, accepting orders,
    /// exactly two tokens, tagged with a recognized crypto category.
    #[verifier::loop_isolation(false)]
    pub fn is_valid_crypto_market(&self, market: &Market) -> (r: bool)
        ensures
            r == valid_crypto_market(market),
    {
        if !market.active || !market.accepting_orders {
            return false;
        }
        if market.tokens.len() != 2 {
            return false;
        }
        match &market.tags {
            Some(tags) => {
                let n = tags.len();
                let mut i: usize = 0;
                while i < n
                    invariant
                        i <= n == tags@.len(),
                        forall|k: int| 0 <= k < i ==> !is_crypto_tag(#[trigger] tags@[k]@),
                    decreases n - i,
                {
                    let t = &tags[i];
                    if string_eq_str(t, "Crypto") || string_eq_str(t, "Bitcoin") || string_eq_str(
                        t,
                        "Ethereum",
                    ) || string_eq_str(t, "Solana") {
                        return true;
                    }
                    i = i + 1;
                }
                false
            },
            None => false,
        }
    }

    /// Inserts or replaces one route.
    fn route_insert_exec(&mut self, route: TokenRoute)
        requires
            old(self).wf(),
        ensures
            final(self).wf(),
            final(self).routes() == route_insert(old(self).routes(), route),
            final(self).markets() == old(self).markets(),
            final(self).books() == old(self).books(),
            final(self).spec_config() == old(self).spec_config(),
    {
        proof {
            lemma_route_insert_unique(self.routes(), route);
        }
        let n = self.token_to_market.len();
        let mut i: usize = 0;
        while i < n
            invariant
                self.wf(),
                self == old(self),
                i <= n == self.routes().len(),
                forall|k: int| 0 <= k < i ==> #[trigger] self.routes()[k].token_id@
                    != route.token_id@,
            decreases n - i,
        {
            if string_eq_str(&self.token_to_market[i].token_id, route.token_id.as_str()) {
                proof {
                    let j = route_index(self.routes(), route.token_id@);
                    assert(self.routes()[i as int].token_id@ == route.token_id@);
                    assert(0 <= j < self.routes().len() && self.routes()[j].token_id@
                        == route.token_id@);
                }
                self.token_to_market[i] = route;
                return ;
            }
            i = i + 1;
        }
        proof {
            assert(!has_route(self.routes(), route.token_id@));
        }
        self.token_to_market.push(route);
    }

    /// Inserts or replaces one market row.
    fn market_insert_exec(&mut self, market: Market)
        requires
            old(self).wf(),
        ensures
            final(self).wf(),
            final(self).markets() == market_insert(old(self).markets(), market),
            final(self).routes() == old(self).routes(),
            final(self).books() == old(self).books(),
            final(self).spec_config() == old(self).spec_config(),
    {
        proof {
            lemma_market_insert_unique(self.markets(), market);
        }
        let n = self.active_markets.len();
        let mut i: usize = 0;
        while i < n
            invariant
                self.wf(),
                self == old(self),
                i <= n == self.markets().len(),
                forall|k: int| 0 <= k < i ==> #[trigger] self.markets()[k].condition_id@
                    != market.condition_id@,
            decreases n - i,
        {
            if string_eq_str(&self.active_markets[i].condition_id, market.condition_id.as_str()) {
                proof {
                    let j = market_index(self.markets(), market.condition_id@);
                    assert(self.markets()[i as int].condition_id@ == market.condition_id@);
                    assert(0 <= j < self.markets().len() && self.markets()[j].condition_id@
                        == market.condition_id@);
                }
                self.active_markets[i] = market;
                return ;
            }
            i = i + 1;
        }
        proof {
            assert(!has_market(self.markets(), market.condition_id@));
        }
        self.active_markets.push(market);
    }

    /// Registers one market: a route for each of its tokens, then the
    /// market row itself.
    pub fn add_market(&mut self, market: Market)
        requires
            old(self).wf(),
        ensures
            final(self).wf(),
            final(self).markets() == market_insert(old(self).markets(), market),
            final(self).routes() == routes_add(
                old(self).routes(),
                market.tokens@,
                market.condition_id,
            ),
            final(self).books() == old(self).books(),
            final(self).spec_config() == old(self).spec_config(),
    {
        let n = market.tokens.len();
        let mut i: usize = 0;
        while i < n
            invariant
                self.wf(),
                i <= n == market.tokens@.len(),
                self.routes() == routes_add(
                    old(self).routes(),
                    market.tokens@.take(i as int),
                    market.condition_id,
                ),
                self.markets() == old(self).markets(),
                self.books() == old(self).books(),
                self.spec_config() == old(self).spec_config(),
            decreases n - i,
        {
            let token_id = market.tokens[i].token_id.clone();
            let market_id = market.condition_id.clone();
            proof {
                assert(market.tokens@.take(i + 1).drop_last() =~= market.tokens@.take(i as int));
                assert(market.tokens@.take(i + 1).last() == market.tokens@[i as int]);
            }
            self.route_insert_exec(TokenRoute { token_id, market_id });
            i = i + 1;
        }
        proof {
            assert(market.tokens@.take(n as int) =~= market.tokens@);
        }
        self.market_insert_exec(market);
    }

    /// Runs every incoming market through the validity filter and
    /// registers the ones that pass; returns how many were registered.
    pub fn register_markets(&mut self, incoming: Vec<Market>) -> (count: usize)
        requires
            old(self).wf(),
        ensures
            final(self).wf(),
            final(self).markets() == discovery_markets(old(self).markets(), incoming@),
            final(self).routes() == discovery_routes(old(self).routes(), incoming@),
            final(self).books() == old(self).books(),
            final(self).spec_config() == old(self).spec_config(),
            count == discovery_count(incoming@),
    {
        let ghost all = incoming@;
        let mut rest = incoming;
        let mut count: usize = 0;
        proof {
            vstd::std_specs::vec::axiom_spec_len(&rest);
        }
        while rest.len() > 0
            invariant
                self.wf(),
                all.len() <= usize::MAX,
                rest@ =~= all.subrange(all.len() - rest@.len(), all.len() as int),
                self.markets() == discovery_markets(
                    old(self).markets(),
                    all.take(all.len() - rest@.len()),
                ),
                self.routes() == discovery_routes(
                    old(self).routes(),
                    all.take(all.len() - rest@.len()),
                ),
                self.books() == old(self).books(),
                self.spec_config() == old(self).spec_config(),
                count == discovery_count(all.take(all.len() - rest@.len())),
                count <= all.len() - rest@.len(),
            decreases rest@.len(),
        {
            let ghost k = all.len() - rest@.len();
            let m = rest.remove(0);
            proof {
                assert(m == all[k]);
                assert(rest@ =~= all.subrange(all.len() - rest@.len(), all.len() as int));
                assert(all.take(k + 1).drop_last() =~= all.take(k as int));
                assert(all.take(k + 1).last() == all[k]);
            }
            if self.is_valid_crypto_market(&m) {
                self.add_market(m);
                count = count + 1;
            }
        }
        proof {
            assert(all.take(all.len() as int) =~= all);
        }
        count
    }

    /// The two leg token identifiers of a market, where it is known and
    /// carries at least two tokens.
    pub fn get_market_tokens(&self, market_id: &str) -> (r: Option<(String, String)>)
        requires
            self.wf(),
        ensures
            match r {
                Some(p) => has_market(self.markets(), market_id@) && market_for(
                    self.markets(),
                    market_id@,
                ).tokens@.len() >= 2 && p.0 == market_for(self.markets(), market_id@).tokens@[0].token_id
                    && p.1 == market_for(self.markets(), market_id@).tokens@[1].token_id,
                None => !has_market(self.markets(), market_id@) || market_for(
                    self.markets(),
                    market_id@,
                ).tokens@.len() < 2,
            },
    {
        match self.find_market_index(market_id) {
            Some(j) => {
                let m = &self.active_markets[j];
                if m.tokens.len() >= 2 {
                    Some((m.tokens[0].token_id.clone(), m.tokens[1].token_id.clone()))
                } else {
                    None
                }
            },
            None => None,
        }
    }

    /// A copy of the market's local state.
    pub fn get_market_state_clone(&self, market_id: &str) -> (r: Option<MarketState>)
        requires
            self.wf(),
        ensures
            r == if has_market(self.markets(), market_id@) {
                Some(market_for(self.markets(), market_id@).state)
            } else {
                None::<MarketState>
            },
    {
        match self.find_market_index(market_id) {
            Some(j) => Some(self.active_markets[j].state),
            None => None,
        }
    }

    /// Clears the normalization latch, resets the counter and starts the
    /// cooldown clock for the market, at the given time.
    pub fn mark_trade_executed_at(&mut self, market_id: &str, now_ms: i64)
        requires
            old(self).wf(),
        ensures
            final(self).wf(),
            final(self).routes() == old(self).routes(),
            final(self).books() == old(self).books(),
            final(self).spec_config() == old(self).spec_config(),
            has_market(old(self).markets(), market_id@) ==> final(self).markets() == old(
                self,
            ).markets().update(
                market_index(old(self).markets(), market_id@),
                with_state(
                    market_for(old(self).markets(), market_id@),
                    traded_state(market_for(old(self).markets(), market_id@).state, now_ms),
                ),
            ),
            !has_market(old(self).markets(), market_id@) ==> final(self).markets() == old(
                self,
            ).markets(),
    {
        if let Some(j) = self.find_market_index(market_id) {
            let edge = self.active_markets[j].state.last_edge;
            let m = &mut self.active_markets[j];
            m.state = MarketState {
                last_trade_time: Some(now_ms),
                is_normalized: false,
                consecutive_normalized_updates: 0,
                last_edge: edge,
            };
            proof {
                lemma_update_same_id_unique(old(self).markets(), j as int, self.markets());
            }
        }
    }

    /// As `mark_trade_executed_at`, at the current wall-clock time.
    pub fn mark_trade_executed(&mut self, market_id: &str)
        requires
            old(self).wf(),
        ensures
            final(self).wf(),
            final(self).routes() == old(self).routes(),
            final(self).books() == old(self).books(),
            final(self).spec_config() == old(self).spec_config(),
            has_market(old(self).markets(), market_id@) ==> exists|t: i64|
                final(self).markets() == old(self).markets().update(
                    market_index(old(self).markets(), market_id@),
                    with_state(
                        market_for(old(self).markets(), market_id@),
                        traded_state(market_for(old(self).markets(), market_id@).state, t),
                    ),
                ),
            !has_market(old(self).markets(), market_id@) ==> final(self).markets() == old(
                self,
            ).markets(),
    {
        let t = crate::clock::now_millis();
        self.mark_trade_executed_at(market_id, t);
    }

    /// The best-ask prices of the two legs, where both books are stored
    /// and quoted.
    pub fn get_best_asks(&self, token_yes: &str, token_no: &str) -> (r: Option<(i64, i64)>)
        requires
            self.wf(),
        ensures
            r == match best_asks_pair(self.books(), token_yes@, token_no@) {
                Some((y, n)) => Some((y.price, n.price)),
                None => None::<(i64, i64)>,
            },
            r matches Some(p) ==> -QTY_LIMIT <= p.0 <= QTY_LIMIT && -QTY_LIMIT <= p.1 <= QTY_LIMIT,
    {
        let by = match self.find_book_index(token_yes) {
            Some(j) => j,
            None => {
                return None;
            },
        };
        let bn = match self.find_book_index(token_no) {
            Some(j) => j,
            None => {
                return None;
            },
        };
        let ay = match best_ask_level(&self.order_books[by].asks) {
            Some(l) => l,
            None => {
                return None;
            },
        };
        let an = match best_ask_level(&self.order_books[bn].asks) {
            Some(l) => l,
            None => {
                return None;
            },
        };
        proof {
            lemma_best_ask_valid(&self.books()[by as int]);
            lemma_best_ask_valid(&self.books()[bn as int]);
        }
        Some((ay.price, an.price))
    }

    /// Both legs' single best asks cover the required size.
    pub fn check_liquidity(&self, token_yes: &str, token_no: &str, required_size: i64) -> (r: bool)
        requires
            self.wf(),
        ensures
            r == (side_has_liquidity(self.books(), token_yes@, required_size as int)
                && side_has_liquidity(self.books(), token_no@, required_size as int)),
    {
        let by = match self.find_book_index(token_yes) {
            Some(j) => j,
            None => {
                return false;
            },
        };
        let ay = match best_ask_level(&self.order_books[by].asks) {
            Some(l) => l,
            None => {
                return false;
            },
        };
        if ay.size < required_size {
            return false;
        }
        let bn = match self.find_book_index(token_no) {
            Some(j) => j,
            None => {
                return false;
            },
        };
        let an = match best_ask_level(&self.order_books[bn].asks) {
            Some(l) => l,
            None => {
                return false;
            },
        };
        an.size >= required_size
    }

    /// One normalization pass for the market: reads the combined best-ask
    /// price of its two legs and applies `norm_step` to its state. Does
    /// nothing where the market, its legs or either quote is missing.
    pub fn update_normalization_state(&mut self, market_id: &str)
        requires
            old(self).wf(),
        ensures
            final(self).wf(),
            final(self).routes() == old(self).routes(),
            final(self).books() == old(self).books(),
            final(self).spec_config() == old(self).spec_config(),
            final(self).markets() == markets_after_norm(
                old(self).markets(),
                old(self).books(),
                old(self).spec_config().normalization_threshold as int,
                old(self).spec_config().normalization_updates,
                market_id@,
            ),
    {
        let (yes_token, no_token) = match self.get_market_tokens(market_id) {
            Some(t) => t,
            None => {
                return ;
            },
        };
        let (ask_yes, ask_no) = match self.get_best_asks(yes_token.as_str(), no_token.as_str()) {
            Some(t) => t,
            None => {
                return ;
            },
        };
        let sum = ask_yes + ask_no;
        let threshold = self.config.normalization_threshold;
        let needed = self.config.normalization_updates;
        let is_norm = sum >= threshold;
        if let Some(j) = self.find_market_index(market_id) {
            let st = self.active_markets[j].state;
            let c: u32 = if is_norm {
                if st.consecutive_normalized_updates < u32::MAX {
                    st.consecutive_normalized_updates + 1
                } else {
                    u32::MAX
                }
            } else {
                0
            };
            let latched = st.is_normalized || (is_norm && c >= needed);
            let m = &mut self.active_markets[j];
            m.state = MarketState {
                last_trade_time: st.last_trade_time,
                is_normalized: latched,
                consecutive_normalized_updates: c,
                last_edge: MICRO - sum,
            };
            proof {
                lemma_update_same_id_unique(old(self).markets(), j as int, self.markets());
            }
        }
    }

    /// Applies one feed book snapshot: parses its levels and timestamp,
    /// replaces the stored book for the asset wholesale, runs one
    /// normalization pass for the owning market, and returns that
    /// market's identifier. An update for an unknown asset is dropped.
    pub fn handle_book_update(&mut self, update: WsBookUpdate, now_ms: i64) -> (r: Option<String>)
        requires
            old(self).wf(),
        ensures
            final(self).wf(),
            book_update_post(*old(self), *final(self), update, now_ms, r),
    {
        let bids = convert_levels(&update.bids);
        let asks = convert_levels(&update.asks);
        let ts = match parse_i64_dec(update.timestamp.as_str()) {
            Some(v) => v,
            None => 0,
        };
        let dt: i64 = if ts > 2_000_000_000 {
            ts
        } else if ts >= -9_000_000_000_000_000 {
            ts * 1000
        } else {
            now_ms
        };
        let mid = match self.find_route_index(update.asset_id.as_str()) {
            Some(j) => self.token_to_market[j].market_id.clone(),
            None => {
                return None;
            },
        };
        let ghost old_books = self.books();
        let book = OrderBook {
            market_id: mid.clone(),
            asset_id: update.asset_id,
            bids,
            asks,
            timestamp: dt,
        };
        proof {
            lemma_ingest_keeps_valid(self.books(), book);
        }
        store_ingest(&mut self.order_books, book);
        proof {
            crate::orderbook::lemma_ingest_effect(old_books, book, book.asset_id@);
            assert forall|a: Seq<char>| a != book.asset_id@ implies #[trigger] has_book(
                self.books(),
                a,
            ) == has_book(old_books, a) && (has_book(old_books, a) ==> book_for(self.books(), a)
                == book_for(old_books, a)) by {
                crate::orderbook::lemma_ingest_effect(old_books, book, a);
            }
        }
        self.update_normalization_state(mid.as_str());
        Some(mid)
    }

    /// Every token identifier the monitor routes, in table order; the
    /// feed session subscribes to these.
    pub fn token_ids(&self) -> (r: Vec<String>)
        ensures
            r@.len() == self.routes().len(),
            forall|i: int| 0 <= i < r@.len() ==> #[trigger] r@[i]@ == self.routes()[i].token_id@,
    {
        let mut out: Vec<String> = Vec::new();
        let n = self.token_to_market.len();
        let mut i: usize = 0;
        while i < n
            invariant
                i <= n == self.routes().len(),
                out@.len() == i,
                forall|k: int| 0 <= k < i ==> #[trigger] out@[k]@ == self.routes()[k].token_id@,
            decreases n - i,
        {
            out.push(self.token_to_market[i].token_id.clone());
            i = i + 1;
        }
        out
    }

    /// Dispatches one parsed feed message: a book snapshot is applied,
    /// anything else is ignored and the monitor is left as it was.
    pub fn handle_message(&mut self, msg: WsMessage, now_ms: i64) -> (r: Option<String>)
        requires
            old(self).wf(),
        ensures
            final(self).wf(),
            msg matches WsMessage::Book(update) ==> book_update_post(
                *old(self),
                *final(self),
                update,
                now_ms,
                r,
            ),
            msg matches WsMessage::Unknown ==> *final(self) == *old(self) && r is None,
    {
        match msg {
            WsMessage::Book(update) => self.handle_book_update(update, now_ms),
            WsMessage::Unknown => None,
        }
    }
}

/// Replacing a row by one with the same key keeps keys unique.
proof fn lemma_update_same_id_unique(ms: Seq<Market>, j: int, after: Seq<Market>)
    requires
        unique_market_ids(ms),
        0 <= j < ms.len(),
        after.len() == ms.len(),
        forall|i: int| 0 <= i < ms.len() && i != j ==> after[i] == ms[i],
        after[j].condition_id@ == ms[j].condition_id@,
    ensures
        unique_market_ids(after),
{
    assert forall|p: int, q: int| 0 <= p < q < after.len() implies #[trigger] after[p].condition_id@
        != #[trigger] after[q].condition_id@ by {
        assert(ms[p].condition_id@ != ms[q].condition_id@);
    }
}

/// A best ask taken from a valid book is itself within bounds.
proof fn lemma_best_ask_valid(b: &OrderBook)
    requires
        valid_book(b),
        best_ask_of(b.asks@) is Some,
    ensures
        valid_level(best_ask_of(b.asks@)->Some_0),
{
    crate::orderbook::lemma_best_ask_minimal(b.asks@);
    let l = best_ask_of(b.asks@)->Some_0;
    let w = choose|w: int| 0 <= w < b.asks@.len() && b.asks@[w] == l;
    assert(valid_level(b.asks@[w]));
}

/// Ingesting a valid book into a valid store keeps every stored book
/// valid.
proof fn lemma_ingest_keeps_valid(books: Seq<OrderBook>, book: OrderBook)
    requires
        valid_stored_books(books),
        valid_book(&book),
    ensures
        valid_stored_books(ingest_spec(books, book)),
{
    let after = ingest_spec(books, book);
    assert forall|i: int| 0 <= i < after.len() implies valid_book(&after[i]) by {
        if i < books.len() {
            assert(valid_book(&books[i]));
        }
    }
}

/// Parses a sequence of feed levels, dropping the malformed ones.
fn convert_levels(raw: &Vec<WsLevel>) -> (r: Vec<Level>)
    ensures
        r@ == levels_of(raw@),
        valid_levels(r@),
{
    let mut out: Vec<Level> = Vec::new();
    let n = raw.len();
    let mut i: usize = 0;
    while i < n
        invariant
            i <= n == raw@.len(),
            out@ == levels_of(raw@.take(i as int)),
            valid_levels(out@),
        decreases n - i,
    {
        proof {
            assert(raw@.take(i + 1).drop_last() =~= raw@.take(i as int));
            assert(raw@.take(i + 1).last() == raw@[i as int]);
        }
        match raw[i].to_level() {
            Some(l) => {
                out.push(l);
                proof {
                    assert(valid_levels(out@)) by {
                        assert(forall|k: int|
                            0 <= k < out@.len() - 1 ==> valid_level(#[trigger] out@[k]));
                    }
                }
            },
            None => {},
        }
        i = i + 1;
    }
    proof {
        assert(raw@.take(n as int) =~= raw@);
    }
    out
}

/// The market table after filtering and registering a page of discovered
/// markets.
pub open spec fn discovery_markets(ms: Seq<Market>, incoming: Seq<Market>) -> Seq<Market>
    decreases incoming.len(),
{
    if incoming.len() == 0 {
        ms
    } else {
        let prev = discovery_markets(ms, incoming.drop_last());
        if valid_crypto_market(&incoming.last()) {
            market_insert(prev, incoming.last())
        } else {
            prev
        }
    }
}

/// The route table after filtering and registering a page of discovered
/// markets.
pub open spec fn discovery_routes(rs: Seq<TokenRoute>, incoming: Seq<Market>) -> Seq<TokenRoute>
    decreases incoming.len(),
{
    if incoming.len() == 0 {
        rs
    } else {
        let prev = discovery_routes(rs, incoming.drop_last());
        if valid_crypto_market(&incoming.last()) {
            routes_add(prev, incoming.last().tokens@, incoming.last().condition_id)
        } else {
            prev
        }
    }
}

/// How many markets of a page pass the validity filter.
pub open spec fn discovery_count(incoming: Seq<Market>) -> int
    decreases incoming.len(),
{
    if incoming.len() == 0 {
        0int
    } else {
        discovery_count(incoming.drop_last()) + if valid_crypto_market(&incoming.last()) {
            1int
        } else {
            0int
        }
    }
}

/// A market's state after a sequence of normalization readings.
pub open spec fn apply_norm_steps(
    st: MarketState,
    sums: Seq<int>,
    threshold: int,
    needed: u32,
) -> MarketState
    decreases sums.len(),
{
    if sums.len() == 0 {
        st
    } else {
        norm_step(apply_norm_steps(st, sums.drop_last(), threshold, needed), sums.last(), threshold, needed)
    }
}

/// Law: once latched, `is_normalized` survives any sequence of readings —
/// a later non-qualifying reading resets the counter but never clears the
/// latch. Only an executed trade clears it.
pub proof fn lemma_normalized_latches(st: MarketState, sums: Seq<int>, threshold: int, needed: u32)
    requires
        st.is_normalized,
    ensures
        apply_norm_steps(st, sums, threshold, needed).is_normalized,
    decreases sums.len(),
{
    if sums.len() > 0 {
        lemma_normalized_latches(st, sums.drop_last(), threshold, needed);
    }
}

/// Applying readings in two batches is applying their concatenation.
proof fn lemma_apply_norm_concat(
    st: MarketState,
    s1: Seq<int>,
    s2: Seq<int>,
    threshold: int,
    needed: u32,
)
    ensures
        apply_norm_steps(st, s1 + s2, threshold, needed) == apply_norm_steps(
            apply_norm_steps(st, s1, threshold, needed),
            s2,
            threshold,
            needed,
        ),
    decreases s2.len(),
{
    if s2.len() == 0 {
        assert(s1 + s2 =~= s1);
    } else {
        lemma_apply_norm_concat(st, s1, s2.drop_last(), threshold, needed);
        assert((s1 + s2).drop_last() =~= s1 + s2.drop_last());
        assert((s1 + s2).last() == s2.last());
    }
}

/// Under a run of qualifying readings the counter grows step by step, and
/// a run at least `needed` long latches the flag.
proof fn lemma_qualifying_run(st: MarketState, sums: Seq<int>, threshold: int, needed: u32)
    requires
        forall|i: int| 0 <= i < sums.len() ==> #[trigger] sums[i] >= threshold,
    ensures
        ({
            let c = apply_norm_steps(st, sums, threshold, needed).consecutive_normalized_updates;
            c >= sums.len() || c == u32::MAX
        }),
        needed >= 1 && sums.len() >= needed ==> apply_norm_steps(
            st,
            sums,
            threshold,
            needed,
        ).is_normalized,
    decreases sums.len(),
{
    if sums.len() > 0 {
        lemma_qualifying_run(st, sums.drop_last(), threshold, needed);
        assert(sums.last() == sums[sums.len() - 1]);
        assert(sums[sums.len() - 1] >= threshold);
    }
}

/// Law: `needed` consecutive qualifying readings — wherever they fall —
/// latch `is_normalized`, whatever came before them.
pub proof fn lemma_normalization_after_run(
    st: MarketState,
    sums: Seq<int>,
    at: int,
    threshold: int,
    needed: u32,
)
    requires
        needed >= 1,
        0 <= at,
        at + needed <= sums.len(),
        forall|i: int| at <= i < at + needed ==> #[trigger] sums[i] >= threshold,
        sums.len() - at == needed,
    ensures
        apply_norm_steps(st, sums, threshold, needed).is_normalized,
{
    let prefix = sums.take(at);
    let run = sums.subrange(at, sums.len() as int);
    assert(sums =~= prefix + run);
    lemma_apply_norm_concat(st, prefix, run, threshold, needed);
    let mid = apply_norm_steps(st, prefix, threshold, needed);
    assert forall|i: int| 0 <= i < run.len() implies #[trigger] run[i] >= threshold by {
        assert(run[i] == sums[at + i]);
    }
    lemma_qualifying_run(mid, run, threshold, needed);
}

/// Length of the qualifying streak a sequence of readings ends with.
pub open spec fn qualifying_streak(sums: Seq<int>, threshold: int) -> int
    decreases sums.len(),
{
    if sums.len() == 0 {
        0int
    } else if sums.last() >= threshold {
        qualifying_streak(sums.drop_last(), threshold) + 1
    } else {
        0int
    }
}

/// Law: starting from a reset state, the latch is reached only by a run
/// of `needed` consecutive qualifying readings — never earlier. While
/// every streak stays shorter than `needed`, the flag stays off and the
/// counter equals the current streak; in particular a non-qualifying
/// reading resets it to zero.
pub proof fn lemma_normalization_needs_full_run(
    st: MarketState,
    sums: Seq<int>,
    threshold: int,
    needed: u32,
)
    requires
        !st.is_normalized,
        st.consecutive_normalized_updates == 0,
        needed >= 1,
        forall|i: int| 0 <= i <= sums.len() ==> #[trigger] qualifying_streak(sums.take(i), threshold)
            < needed,
    ensures
        !apply_norm_steps(st, sums, threshold, needed).is_normalized,
        apply_norm_steps(st, sums, threshold, needed).consecutive_normalized_updates
            == qualifying_streak(sums, threshold),
    decreases sums.len(),
{
    if sums.len() == 0 {
        assert(sums.take(0) =~= sums);
    } else {
        assert forall|i: int| 0 <= i <= sums.drop_last().len() implies #[trigger] qualifying_streak(
            sums.drop_last().take(i),
            threshold,
        ) < needed by {
            assert(sums.drop_last().take(i) =~= sums.take(i));
        }
        lemma_normalization_needs_full_run(st, sums.drop_last(), threshold, needed);
        assert(sums.take(sums.len() as int) =~= sums);
        assert(sums.take(sums.len() - 1) =~= sums.drop_last());
        assert(qualifying_streak(sums.take(sums.len() - 1), threshold) < needed);
        assert(qualifying_streak(sums.take(sums.len() as int), threshold) < needed);
        assert(qualifying_streak(sums.drop_last(), threshold) < needed);
        assert(qualifying_streak(sums, threshold) < needed);
    }
}

proof fn lemma_route_insert_unique(rs: Seq<TokenRoute>, r: TokenRoute)
    requires
        unique_routes(rs),
    ensures
        unique_routes(route_insert(rs, r)),
{
    let after = route_insert(rs, r);
    if has_route(rs, r.token_id@) {
        let j = route_index(rs, r.token_id@);
        assert(0 <= j < rs.len() && rs[j].token_id@ == r.token_id@);
        assert forall|p: int, q: int| 0 <= p < q < after.len() implies #[trigger] after[p].token_id@
            != #[trigger] after[q].token_id@ by {
            assert(rs[p].token_id@ != rs[q].token_id@);
        }
    } else {
        assert forall|p: int, q: int| 0 <= p < q < after.len() implies #[trigger] after[p].token_id@
            != #[trigger] after[q].token_id@ by {
            if q < rs.len() {
                assert(rs[p].token_id@ != rs[q].token_id@);
            } else {
                assert(after[q] == r);
                assert(!(rs[p].token_id@ == r.token_id@));
            }
        }
    }
}

proof fn lemma_market_insert_unique(ms: Seq<Market>, m: Market)
    requires
        unique_market_ids(ms),
    ensures
        unique_market_ids(market_insert(ms, m)),
{
    let after = market_insert(ms, m);
    if has_market(ms, m.condition_id@) {
        let j = market_index(ms, m.condition_id@);
        assert(0 <= j < ms.len() && ms[j].condition_id@ == m.condition_id@);
        assert forall|p: int, q: int| 0 <= p < q < after.len() implies #[trigger] after[p].condition_id@
            != #[trigger] after[q].condition_id@ by {
            assert(ms[p].condition_id@ != ms[q].condition_id@);
        }
    } else {
        assert forall|p: int, q: int| 0 <= p < q < after.len() implies #[trigger] after[p].condition_id@
            != #[trigger] after[q].condition_id@ by {
            if q < ms.len() {
                assert(ms[p].condition_id@ != ms[q].condition_id@);
            } else {
                assert(after[q] == m);
                assert(!(ms[p].condition_id@ == m.condition_id@));
            }
        }
    }
}

} // verus!
