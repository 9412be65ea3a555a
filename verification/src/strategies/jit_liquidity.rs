//! Same-venue round-trip strategy: buy then sell within one market's
//! current spread, sized against depth and position limits.

use vstd::prelude::*;
use crate::math::{int_min, mul_div_u64, mul_div_wide, sat_u64, scaled_ratio_i64, min_u64};
use crate::settings::Settings;
use crate::types::{
    ArbitrageError, ArbitrageOpportunity, MarketState, TokenPair, TradeSide, TradeStep,
    find_market_state, lemma_find_market_some, spec_find_market, spec_has_market, PRICE_SCALE,
    RATE_SCALE,
};
use crate::profit::TRADING_FEE_PPM;

verus! {

broadcast use vstd::seq_lib::group_to_multiset_ensures;

/// Flat slippage estimate of this strategy, in parts per million.
pub const JIT_SLIPPAGE_PPM: u64 = 1000;

/// Network fee rate, in parts per million of the trade size.
pub const NETWORK_FEE_PPM: u64 = 5;

/// Freshness window: an opportunity older than this many seconds fails
/// re-validation.
pub const JIT_FRESHNESS_SECS: i64 = 5;

/// A market qualifies for the round-trip when it has depth, its book is
/// not crossed (a crossed book is invalid data), it quotes a positive
/// bid, and its relative spread is within the configured bound.
pub open spec fn spec_jit_suitable(st: MarketState, s: Settings) -> bool {
    &&& st.liquidity >= s.trading.markets.min_liquidity
    &&& st.spec_healthy()
    &&& st.best_bid > 0
    &&& sat_u64((st.best_ask - st.best_bid) * RATE_SCALE as int / st.best_bid as int)
        <= s.trading.markets.max_spread as int
}

/// Trade size: the depth-derived optimum capped by the position limit
/// and by a tenth of the available liquidity.
pub open spec fn spec_jit_size(st: MarketState, s: Settings) -> int {
    int_min(s.trading.execution.max_position_size as int, st.liquidity as int / 10)
}

/// Entry at the ask marked up by the flat slippage.
pub open spec fn spec_jit_entry_price(st: MarketState) -> int {
    sat_u64(st.best_ask as int * (RATE_SCALE + JIT_SLIPPAGE_PPM) as int / RATE_SCALE as int)
}

/// Exit at the bid marked down by the flat slippage.
pub open spec fn spec_jit_exit_price(st: MarketState) -> int {
    sat_u64(st.best_bid as int * (RATE_SCALE - JIT_SLIPPAGE_PPM) as int / RATE_SCALE as int)
}

/// Net profit and entry cost of the round trip, in micro quote-units.
pub open spec fn spec_jit_net_and_entry(st: MarketState, size: int, s: Settings) -> (int, int) {
    let entry_value = spec_jit_entry_price(st) * size / PRICE_SCALE as int;
    let exit_value = spec_jit_exit_price(st) * size / PRICE_SCALE as int;
    let fees = size * TRADING_FEE_PPM as int / RATE_SCALE as int + size * NETWORK_FEE_PPM as int
        / RATE_SCALE as int;
    (exit_value - entry_value - fees, entry_value)
}

/// The candidate this market yields: `None` when unsuitable, loss-making
/// or below the profit floor; otherwise profit percentage (ppm),
/// estimated profit and size.
pub open spec fn spec_jit_candidate(st: MarketState, s: Settings) -> Option<(i64, u64, u64)> {
    if !spec_jit_suitable(st, s) {
        None
    } else {
        let size = spec_jit_size(st, s);
        let pr = spec_jit_net_and_entry(st, size, s);
        if pr.0 < 0 || pr.1 < 1 {
            None
        } else {
            let pct = int_min(pr.0 * RATE_SCALE as int / pr.1, i64::MAX as int);
            if pct < s.trading.execution.min_profit_threshold as int {
                None
            } else {
                Some((pct as i64, sat_u64(pr.0) as u64, size as u64))
            }
        }
    }
}

/// The two-leg route: buy at the ask, sell at the bid, same market.
pub open spec fn spec_jit_route(st: MarketState, size: u64) -> Seq<TradeStep> {
    seq![
        TradeStep { market: st.market_address, side: TradeSide::Buy, amount: size, price: st.best_ask },
        TradeStep { market: st.market_address, side: TradeSide::Sell, amount: size, price: st.best_bid },
    ]
}

/// Whether `o` is exactly the opportunity this market yields at the
/// given instant.
pub open spec fn spec_is_jit_opportunity(
    st: MarketState,
    s: Settings,
    now: i64,
    o: ArbitrageOpportunity,
) -> bool {
    match spec_jit_candidate(st, s) {
        Option::None => false,
        Option::Some(c) => {
            &&& o.source_market == st.market_address
            &&& o.target_market == st.market_address
            &&& o.token_pair.base_token == st.base_token
            &&& o.token_pair.quote_token == st.quote_token
            &&& o.profit_percentage == c.0
            &&& o.required_amount == c.2
            &&& o.estimated_profit == c.1
            &&& o.route@ == spec_jit_route(st, c.2)
            &&& o.timestamp == now
        },
    }
}

/// Whether `o` is the opportunity of some listed market.
pub open spec fn spec_jit_sourced(
    states: Seq<MarketState>,
    s: Settings,
    markets: Seq<u64>,
    now: i64,
    o: ArbitrageOpportunity,
) -> bool {
    exists|t: int|
        0 <= t < markets.len() && spec_is_jit_opportunity(
            spec_find_market(states, markets[t])->Some_0,
            s,
            now,
            o,
        )
}

/// Whether the listed market at `t` has its opportunity present in `v`.
pub open spec fn spec_jit_represented(
    states: Seq<MarketState>,
    s: Settings,
    markets: Seq<u64>,
    now: i64,
    t: int,
    v: Seq<ArbitrageOpportunity>,
) -> bool {
    exists|k: int|
        0 <= k < v.len() && spec_is_jit_opportunity(
            spec_find_market(states, markets[t])->Some_0,
            s,
            now,
            v[k],
        )
}

/// Some listed market is missing from the snapshot, so the scan fails.
pub open spec fn spec_jit_scan_blocked(states: Seq<MarketState>, markets: Seq<u64>) -> bool {
    exists|i: int| 0 <= i < markets.len() && !spec_has_market(states, #[trigger] markets[i])
}

/// No entry of `v` is sourced from a market at position `from` onward.
pub open spec fn spec_jit_sources_before(
    markets: Seq<u64>,
    from: int,
    v: Seq<ArbitrageOpportunity>,
) -> bool {
    forall|k: int, t: int|
        0 <= k < v.len() && from <= t < markets.len() ==> (#[trigger] v[k]).source_market
            != #[trigger] markets[t]
}

/// Every entry of `v` is the opportunity of some listed market.
pub open spec fn spec_jit_scan_sound(
    states: Seq<MarketState>,
    s: Settings,
    markets: Seq<u64>,
    now: i64,
    v: Seq<ArbitrageOpportunity>,
) -> bool {
    forall|k: int|
        0 <= k < v.len() ==> spec_jit_sourced(states, s, markets, now, #[trigger] v[k])
}

/// Every listed market before `upto` whose candidate exists is
/// represented in `v`.
pub open spec fn spec_jit_scan_complete(
    states: Seq<MarketState>,
    s: Settings,
    markets: Seq<u64>,
    now: i64,
    upto: int,
    v: Seq<ArbitrageOpportunity>,
) -> bool {
    forall|t: int|
        0 <= t < upto && spec_has_market(states, #[trigger] markets[t]) && spec_jit_candidate(
            spec_find_market(states, markets[t])->Some_0,
            s,
        ) is Some ==> spec_jit_represented(states, s, markets, now, t, v)
}

proof fn lemma_jit_sound_push(
    states: Seq<MarketState>,
    s: Settings,
    markets: Seq<u64>,
    now: i64,
    v: Seq<ArbitrageOpportunity>,
    o: ArbitrageOpportunity,
    t: int,
)
    requires
        spec_jit_scan_sound(states, s, markets, now, v),
        0 <= t < markets.len(),
        spec_is_jit_opportunity(spec_find_market(states, markets[t])->Some_0, s, now, o),
    ensures
        spec_jit_scan_sound(states, s, markets, now, v.push(o)),
{
    let w = v.push(o);
    assert forall|k: int| 0 <= k < w.len() implies spec_jit_sourced(
        states,
        s,
        markets,
        now,
        #[trigger] w[k],
    ) by {
        if k < v.len() {
            assert(w[k] == v[k]);
        } else {
            assert(w[k] == o);
            assert(spec_jit_sourced(states, s, markets, now, o));
        }
    }
}

proof fn lemma_jit_complete_push(
    states: Seq<MarketState>,
    s: Settings,
    markets: Seq<u64>,
    now: i64,
    i: int,
    v: Seq<ArbitrageOpportunity>,
    o: ArbitrageOpportunity,
)
    requires
        spec_jit_scan_complete(states, s, markets, now, i, v),
        0 <= i < markets.len(),
        spec_is_jit_opportunity(spec_find_market(states, markets[i])->Some_0, s, now, o),
    ensures
        spec_jit_scan_complete(states, s, markets, now, i + 1, v.push(o)),
{
    let w = v.push(o);
    assert forall|t: int|
        0 <= t < i + 1 && spec_has_market(states, #[trigger] markets[t]) && spec_jit_candidate(
            spec_find_market(states, markets[t])->Some_0,
            s,
        ) is Some implies spec_jit_represented(states, s, markets, now, t, w) by {
        if t == i {
            assert(w[v.len() as int] == o);
        } else {
            assert(spec_jit_represented(states, s, markets, now, t, v));
            let k1 = choose|k1: int|
                0 <= k1 < v.len() && spec_is_jit_opportunity(
                    spec_find_market(states, markets[t])->Some_0,
                    s,
                    now,
                    v[k1],
                );
            assert(w[k1] == v[k1]);
        }
    }
}

proof fn lemma_jit_complete_skip(
    states: Seq<MarketState>,
    s: Settings,
    markets: Seq<u64>,
    now: i64,
    i: int,
    v: Seq<ArbitrageOpportunity>,
)
    requires
        spec_jit_scan_complete(states, s, markets, now, i, v),
        0 <= i < markets.len(),
        spec_has_market(states, markets[i]) ==> spec_jit_candidate(
            spec_find_market(states, markets[i])->Some_0,
            s,
        ) is None,
    ensures
        spec_jit_scan_complete(states, s, markets, now, i + 1, v),
{
}

proof fn lemma_jit_sound_permutation(
    states: Seq<MarketState>,
    s: Settings,
    markets: Seq<u64>,
    now: i64,
    a: Seq<ArbitrageOpportunity>,
    b: Seq<ArbitrageOpportunity>,
)
    requires
        spec_jit_scan_sound(states, s, markets, now, a),
        a.to_multiset() == b.to_multiset(),
    ensures
        spec_jit_scan_sound(states, s, markets, now, b),
{
    assert forall|k: int| 0 <= k < b.len() implies spec_jit_sourced(
        states,
        s,
        markets,
        now,
        #[trigger] b[k],
    ) by {
        let o = b[k];
        assert(b.contains(o));
        assert(b.to_multiset().count(o) > 0);
        assert(a.to_multiset().count(o) > 0);
        assert(a.contains(o));
        let k1 = choose|k1: int| 0 <= k1 < a.len() && a[k1] == o;
        assert(a[k1] == o);
        assert(spec_jit_sourced(states, s, markets, now, a[k1]));
    }
}

proof fn lemma_jit_complete_permutation(
    states: Seq<MarketState>,
    s: Settings,
    markets: Seq<u64>,
    now: i64,
    upto: int,
    a: Seq<ArbitrageOpportunity>,
    b: Seq<ArbitrageOpportunity>,
)
    requires
        spec_jit_scan_complete(states, s, markets, now, upto, a),
        a.to_multiset() == b.to_multiset(),
    ensures
        spec_jit_scan_complete(states, s, markets, now, upto, b),
{
    assert forall|t: int|
        0 <= t < upto && spec_has_market(states, #[trigger] markets[t]) && spec_jit_candidate(
            spec_find_market(states, markets[t])->Some_0,
            s,
        ) is Some implies spec_jit_represented(states, s, markets, now, t, b) by {
        assert(spec_jit_represented(states, s, markets, now, t, a));
        let k1 = choose|k1: int|
            0 <= k1 < a.len() && spec_is_jit_opportunity(
                spec_find_market(states, markets[t])->Some_0,
                s,
                now,
                a[k1],
            );
        let o = a[k1];
        assert(a.contains(o));
        assert(a.to_multiset().count(o) > 0);
        assert(b.to_multiset().count(o) > 0);
        assert(b.contains(o));
        let k2 = choose|k2: int| 0 <= k2 < b.len() && b[k2] == o;
        assert(b[k2] == o);
    }
}

/// Whether a jit opportunity still stands: it must be fresh and its
/// profit must still clear the floor.
pub open spec fn spec_jit_validate(opp: ArbitrageOpportunity, s: Settings, now: i64) -> bool {
    &&& now - opp.timestamp <= JIT_FRESHNESS_SECS
    &&& opp.profit_percentage >= s.trading.execution.min_profit_threshold
}

/// Re-validating an opportunity older than the freshness window always
/// fails, whatever its profit says.
pub proof fn lemma_stale_jit_opportunity_rejected(
    opp: ArbitrageOpportunity,
    s: Settings,
    now: i64,
)
    requires
        now - opp.timestamp > JIT_FRESHNESS_SECS,
    ensures
        !spec_jit_validate(opp, s, now),
{
}

/// A market with a crossed book yields no jit opportunity.
pub proof fn lemma_crossed_market_yields_no_jit(
    st: MarketState,
    s: Settings,
    now: i64,
    o: ArbitrageOpportunity,
)
    requires
        st.best_bid > st.best_ask,
    ensures
        !spec_is_jit_opportunity(st, s, now, o),
{
}

pub struct JitLiquidityStrategy {
    pub settings: Settings,
    pub market_states: Vec<MarketState>,
}

impl JitLiquidityStrategy {
    /// A strategy over the validated default configuration and an empty
    /// snapshot; the engine hands in fresh state before each scan.
    pub fn new() -> (r: Self)
        ensures
            r.settings.spec_valid(),
            r.market_states@.len() == 0,
    {
        JitLiquidityStrategy { settings: Settings::default(), market_states: Vec::new() }
    }

    /// A strategy over the engine's validated settings and snapshot.
    pub fn with_market_data(settings: Settings, market_states: Vec<MarketState>) -> (r: Self)
        requires
            settings.spec_valid(),
        ensures
            r.settings == settings,
            r.market_states@ == market_states@,
    {
        JitLiquidityStrategy { settings, market_states }
    }

    /// Replace the snapshot this strategy scans.
    pub fn set_market_states(&mut self, market_states: Vec<MarketState>)
        ensures
            final(self).settings == old(self).settings,
            final(self).market_states@ == market_states@,
    {
        self.market_states = market_states;
    }

    pub fn name(&self) -> (r: &'static str)
        ensures
            r@ == "JIT Liquidity Strategy"@,
    {
        "JIT Liquidity Strategy"
    }

    fn get_market_state<'a>(&'a self, market: u64) -> (r: Result<&'a MarketState, ArbitrageError>)
        ensures
            r matches Ok(st) ==> spec_find_market(self.market_states@, market) == Some(*st)
                && st.market_address == market,
            r is Err <==> !spec_has_market(self.market_states@, market),
            r is Err ==> (r matches Err(ArbitrageError::MarketError(m)) && m@
                == "Market state not found"@),
    {
        proof {
            lemma_find_market_some(self.market_states@, market);
        }
        match find_market_state(self.market_states.as_slice(), market) {
            Some(st) => Ok(st),
            None => Err(ArbitrageError::MarketError("Market state not found".to_owned())),
        }
    }

    fn is_market_suitable_for_jit(&self, market_state: &MarketState) -> (r: Result<
        bool,
        ArbitrageError,
    >)
        ensures
            r matches Ok(b) && b == spec_jit_suitable(*market_state, self.settings),
    {
        if market_state.liquidity < self.settings.trading.markets.min_liquidity {
            return Ok(false);
        }
        if !market_state.is_healthy() {
            return Ok(false);
        }
        if market_state.best_bid == 0 {
            return Ok(false);
        }
        let spread_ppm: u64 = mul_div_u64(
            market_state.best_ask - market_state.best_bid,
            RATE_SCALE,
            market_state.best_bid,
        );
        if spread_ppm > self.settings.trading.markets.max_spread {
            proof {
                if (market_state.best_ask - market_state.best_bid) * RATE_SCALE as int
                    / market_state.best_bid as int > u64::MAX as int {
                    assert(self.settings.trading.markets.max_spread <= u64::MAX as int);
                }
            }
            return Ok(false);
        }
        let volatility_ok: bool = match self.is_volatility_suitable(market_state) {
            Ok(b) => b,
            Err(e) => {
                return Err(e);
            },
        };
        if !volatility_ok {
            return Ok(false);
        }
        Ok(true)
    }

    fn is_volatility_suitable(&self, _market_state: &MarketState) -> (r: Result<
        bool,
        ArbitrageError,
    >)
        ensures
            r matches Ok(b) && b,
    {
        Ok(true)
    }

    fn calculate_size_from_depth(&self, _market_state: &MarketState) -> (r: Result<
        u64,
        ArbitrageError,
    >)
        ensures
            r matches Ok(v) && v == self.settings.trading.execution.max_position_size,
    {
        Ok(self.settings.trading.execution.max_position_size)
    }

    fn calculate_optimal_trade_size(&self, market_state: &MarketState) -> (r: Result<
        u64,
        ArbitrageError,
    >)
        ensures
            r matches Ok(v) && v == spec_jit_size(*market_state, self.settings),
    {
        let optimal_size: u64 = match self.calculate_size_from_depth(market_state) {
            Ok(v) => v,
            Err(e) => {
                return Err(e);
            },
        };
        let risk_adjusted_size: u64 = min_u64(
            optimal_size,
            self.settings.trading.execution.max_position_size,
        );
        let market_adjusted_size: u64 = min_u64(risk_adjusted_size, market_state.liquidity / 10);
        Ok(market_adjusted_size)
    }

    fn calculate_entry_price(&self, market_state: &MarketState, _trade_size: u64) -> (r: Result<
        u64,
        ArbitrageError,
    >)
        ensures
            r matches Ok(v) && v == spec_jit_entry_price(*market_state),
    {
        Ok(mul_div_u64(market_state.best_ask, RATE_SCALE + JIT_SLIPPAGE_PPM, RATE_SCALE))
    }

    fn calculate_exit_price(&self, market_state: &MarketState, _trade_size: u64) -> (r: Result<
        u64,
        ArbitrageError,
    >)
        ensures
            r matches Ok(v) && v == spec_jit_exit_price(*market_state),
    {
        Ok(mul_div_u64(market_state.best_bid, RATE_SCALE - JIT_SLIPPAGE_PPM, RATE_SCALE))
    }

    fn estimate_slippage(&self, _trade_size: u64, _market_state: &MarketState) -> (r: Result<
        u64,
        ArbitrageError,
    >)
        ensures
            r matches Ok(v) && v == JIT_SLIPPAGE_PPM,
    {
        Ok(JIT_SLIPPAGE_PPM)
    }

    fn calculate_total_fees(&self, trade_size: u64, _market_state: &MarketState) -> (r: Result<
        i128,
        ArbitrageError,
    >)
        ensures
            r matches Ok(v) && v == trade_size as int * TRADING_FEE_PPM as int / RATE_SCALE as int
                + trade_size as int * NETWORK_FEE_PPM as int / RATE_SCALE as int,
    {
        let trading_fees: i128 = mul_div_wide(trade_size, TRADING_FEE_PPM, RATE_SCALE);
        let network_fees: i128 = mul_div_wide(trade_size, NETWORK_FEE_PPM, RATE_SCALE);
        Ok(trading_fees + network_fees)
    }

    /// Profit percentage (ppm) and estimated profit of the round trip.
    /// Fails no further than its callees; a loss-making or unpriceable
    /// candidate is reported through the percentage falling below any
    /// positive floor.
    fn calculate_jit_profit(&self, market_state: &MarketState, trade_size: u64) -> (r: Result<
        (i64, u64),
        ArbitrageError,
    >)
        requires
            self.settings.spec_valid(),
        ensures
            r matches Ok(pr) ==> {
                let net = spec_jit_net_and_entry(*market_state, trade_size as int, self.settings).0;
                let entry = spec_jit_net_and_entry(
                    *market_state,
                    trade_size as int,
                    self.settings,
                ).1;
                &&& (net >= 0 && entry >= 1) ==> (pr.0 as int == int_min(
                    net * RATE_SCALE as int / entry,
                    i64::MAX as int,
                ) && pr.1 == sat_u64(net))
                &&& (net < 0 || entry < 1) ==> (pr.0 == -1 && pr.1 == 0)
            },
            r is Ok,
    {
        let entry_price: u64 = match self.calculate_entry_price(market_state, trade_size) {
            Ok(v) => v,
            Err(e) => {
                return Err(e);
            },
        };
        let exit_price: u64 = match self.calculate_exit_price(market_state, trade_size) {
            Ok(v) => v,
            Err(e) => {
                return Err(e);
            },
        };
        let entry_value: i128 = mul_div_wide(entry_price, trade_size, PRICE_SCALE);
        let exit_value: i128 = mul_div_wide(exit_price, trade_size, PRICE_SCALE);
        let fees: i128 = match self.calculate_total_fees(trade_size, market_state) {
            Ok(v) => v,
            Err(e) => {
                return Err(e);
            },
        };
        proof {
            vstd::arithmetic::mul::lemma_mul_is_commutative(
                entry_price as int,
                trade_size as int,
            );
            vstd::arithmetic::mul::lemma_mul_is_commutative(exit_price as int, trade_size as int);
        }
        let net: i128 = exit_value - entry_value - fees;
        if net < 0 {
            return Ok((-1, 0));
        }
        if entry_value < 1 {
            return Ok((-1, 0));
        }
        proof {
            lemma_fundamental_div_mod_wrap(
                u64::MAX as int * u64::MAX as int,
                PRICE_SCALE as int,
            );
        }
        let pct: i64 = scaled_ratio_i64(net, entry_value, RATE_SCALE);
        let estimated: u64 = if net > u64::MAX as i128 {
            u64::MAX
        } else {
            net as u64
        };
        Ok((pct, estimated))
    }

    fn create_jit_route(&self, market_state: &MarketState, trade_size: u64) -> (r: Result<
        Vec<TradeStep>,
        ArbitrageError,
    >)
        ensures
            r matches Ok(v) && v@ == spec_jit_route(*market_state, trade_size),
    {
        let mut route: Vec<TradeStep> = Vec::new();
        route.push(
            TradeStep {
                market: market_state.market_address,
                side: TradeSide::Buy,
                amount: trade_size,
                price: market_state.best_ask,
            },
        );
        route.push(
            TradeStep {
                market: market_state.market_address,
                side: TradeSide::Sell,
                amount: trade_size,
                price: market_state.best_bid,
            },
        );
        proof {
            assert(route@ =~= spec_jit_route(*market_state, trade_size));
        }
        Ok(route)
    }

    /// The opportunity one market yields, exactly as the candidate spec
    /// says; fails only when the market is missing from the snapshot.
    #[verifier::rlimit(30)]
    fn analyze_market_for_jit(&self, market: u64, now: i64) -> (r: Result<
        Option<ArbitrageOpportunity>,
        ArbitrageError,
    >)
        requires
            self.settings.spec_valid(),
        ensures
            !spec_has_market(self.market_states@, market) ==> (r matches Err(
                ArbitrageError::MarketError(m),
            ) && m@ == "Market state not found"@),
            spec_has_market(self.market_states@, market) ==> (r matches Ok(o) && (match o {
                Option::None => spec_jit_candidate(
                    spec_find_market(self.market_states@, market)->Some_0,
                    self.settings,
                ) is None,
                Option::Some(opp) => spec_is_jit_opportunity(
                    spec_find_market(self.market_states@, market)->Some_0,
                    self.settings,
                    now,
                    opp,
                ),
            })),
    {
        let market_state: &MarketState = match self.get_market_state(market) {
            Ok(st) => st,
            Err(e) => {
                return Err(e);
            },
        };
        let suitable: bool = match self.is_market_suitable_for_jit(market_state) {
            Ok(b) => b,
            Err(e) => {
                return Err(e);
            },
        };
        if !suitable {
            return Ok(None);
        }
        let trade_size: u64 = match self.calculate_optimal_trade_size(market_state) {
            Ok(v) => v,
            Err(e) => {
                return Err(e);
            },
        };
        let (profit_percentage, estimated_profit) = match self.calculate_jit_profit(
            market_state,
            trade_size,
        ) {
            Ok(pr) => pr,
            Err(e) => {
                return Err(e);
            },
        };
        if profit_percentage < self.settings.trading.execution.min_profit_threshold {
            return Ok(None);
        }
        let route: Vec<TradeStep> = match self.create_jit_route(market_state, trade_size) {
            Ok(v) => v,
            Err(e) => {
                return Err(e);
            },
        };
        let token_pair: TokenPair = market_state.token_pair();
        Ok(
            Some(
                ArbitrageOpportunity {
                    source_market: market,
                    target_market: market,
                    token_pair,
                    profit_percentage,
                    required_amount: trade_size,
                    estimated_profit,
                    route,
                    timestamp: now,
                },
            ),
        )
    }

    /// Scan the given markets; the result is the per-market candidate
    /// list sorted by descending profit percentage. Fails exactly when
    /// some listed market is missing from the snapshot; otherwise every
    /// returned opportunity comes from a listed market, and every listed
    /// market with a candidate is represented.
    #[verifier::rlimit(100)]
    #[verifier::spinoff_prover]
    pub fn find_jit_opportunities(&self, markets: &[u64], now: i64) -> (r: Result<
        Vec<ArbitrageOpportunity>,
        ArbitrageError,
    >)
        requires
            self.settings.spec_valid(),
        ensures
            r is Err <==> spec_jit_scan_blocked(self.market_states@, markets@),
            r matches Ok(v) ==> {
                &&& crate::strategies::spec_sorted_desc(v@)
                &&& spec_jit_scan_sound(self.market_states@, self.settings, markets@, now, v@)
                &&& spec_jit_scan_complete(
                    self.market_states@,
                    self.settings,
                    markets@,
                    now,
                    markets@.len() as int,
                    v@,
                )
                &&& (crate::strategies::spec_distinct_ids(markets@) ==> v@.no_duplicates())
            },
    {
        let n: usize = markets.len();
        let mut opportunities: Vec<ArbitrageOpportunity> = Vec::new();
        let mut i: usize = 0;
        while i < n
            invariant
                0 <= i <= n,
                n == markets@.len(),
                self.settings.spec_valid(),
                forall|t: int|
                    0 <= t < i ==> spec_has_market(self.market_states@, #[trigger] markets@[t]),
                spec_jit_scan_sound(
                    self.market_states@,
                    self.settings,
                    markets@,
                    now,
                    opportunities@,
                ),
                spec_jit_scan_complete(
                    self.market_states@,
                    self.settings,
                    markets@,
                    now,
                    i as int,
                    opportunities@,
                ),
                crate::strategies::spec_distinct_ids(markets@)
                    ==> opportunities@.no_duplicates(),
                crate::strategies::spec_distinct_ids(markets@) ==> spec_jit_sources_before(
                    markets@,
                    i as int,
                    opportunities@,
                ),
            decreases n - i,
        {
            proof {
                lemma_find_market_some(self.market_states@, markets@[i as int]);
            }
            let pre = Ghost(opportunities@);
            match self.analyze_market_for_jit(markets[i], now) {
                Ok(Some(opp)) => {
                    opportunities.push(opp);
                    proof {
                        lemma_jit_sound_push(
                            self.market_states@,
                            self.settings,
                            markets@,
                            now,
                            pre@,
                            opp,
                            i as int,
                        );
                        lemma_jit_complete_push(
                            self.market_states@,
                            self.settings,
                            markets@,
                            now,
                            i as int,
                            pre@,
                            opp,
                        );
                        assert(opportunities@ == pre@.push(opp));
                        if crate::strategies::spec_distinct_ids(markets@) {
                            assert(opp.source_market == markets@[i as int]);
                            assert forall|a: int, b: int|
                                0 <= a < opportunities@.len() && 0 <= b < opportunities@.len()
                                    && a != b implies opportunities@[a] != opportunities@[b] by {
                                let k1 = if a < b {
                                    a
                                } else {
                                    b
                                };
                                let k2 = if a < b {
                                    b
                                } else {
                                    a
                                };
                                assert(opportunities@[k1] == pre@[k1]);
                                if k2 < pre@.len() {
                                    assert(opportunities@[k2] == pre@[k2]);
                                } else {
                                    assert(opportunities@[k2] == opp);
                                    assert(pre@[k1].source_market != markets@[i as int]);
                                }
                            }
                            assert forall|k: int, t: int|
                                0 <= k < opportunities@.len() && i as int + 1 <= t
                                    < markets@.len() implies (#[trigger] opportunities@[k]).source_market
                                != #[trigger] markets@[t] by {
                                if k < pre@.len() {
                                    assert(opportunities@[k] == pre@[k]);
                                } else {
                                    assert(opportunities@[k] == opp);
                                }
                            }
                        }
                    }
                },
                Ok(None) => {
                    proof {
                        lemma_jit_complete_skip(
                            self.market_states@,
                            self.settings,
                            markets@,
                            now,
                            i as int,
                            pre@,
                        );
                    }
                },
                Err(e) => {
                    proof {
                        assert(!spec_has_market(self.market_states@, markets@[i as int]));
                        assert(spec_jit_scan_blocked(self.market_states@, markets@));
                    }
                    return Err(e);
                },
            }
            i = i + 1;
        }
        let unsorted = Ghost(opportunities@);
        crate::strategies::sort_opportunities_by_profit(&mut opportunities);
        proof {
            lemma_jit_sound_permutation(
                self.market_states@,
                self.settings,
                markets@,
                now,
                unsorted@,
                opportunities@,
            );
            lemma_jit_complete_permutation(
                self.market_states@,
                self.settings,
                markets@,
                now,
                n as int,
                unsorted@,
                opportunities@,
            );
            if crate::strategies::spec_distinct_ids(markets@) {
                crate::strategies::lemma_no_duplicates_permutation(unsorted@, opportunities@);
            }
            assert(!spec_jit_scan_blocked(self.market_states@, markets@)) by {
                if spec_jit_scan_blocked(self.market_states@, markets@) {
                    let t = choose|t: int|
                        0 <= t < markets@.len() && !spec_has_market(
                            self.market_states@,
                            #[trigger] markets@[t],
                        );
                    assert(spec_has_market(self.market_states@, markets@[t]));
                }
            }
        }
        Ok(opportunities)
    }

    /// The strategy's analysis entry point: scan and rank the markets.
    pub fn analyze(&self, markets: &[u64], now: i64) -> (r: Result<
        Vec<ArbitrageOpportunity>,
        ArbitrageError,
    >)
        requires
            self.settings.spec_valid(),
        ensures
            r is Err <==> spec_jit_scan_blocked(self.market_states@, markets@),
            r matches Ok(v) ==> {
                &&& crate::strategies::spec_sorted_desc(v@)
                &&& spec_jit_scan_sound(self.market_states@, self.settings, markets@, now, v@)
                &&& spec_jit_scan_complete(
                    self.market_states@,
                    self.settings,
                    markets@,
                    now,
                    markets@.len() as int,
                    v@,
                )
                &&& (crate::strategies::spec_distinct_ids(markets@) ==> v@.no_duplicates())
            },
    {
        self.find_jit_opportunities(markets, now)
    }

    /// Re-validation gate: the opportunity must still be fresh and its
    /// profit must still clear the floor. Older than the window, the
    /// answer is always no.
    pub fn validate(&self, opportunity: &ArbitrageOpportunity, now: i64) -> (r: Result<
        bool,
        ArbitrageError,
    >)
        requires
            opportunity.timestamp >= 0,
            now >= 0,
        ensures
            r matches Ok(b) && b == spec_jit_validate(*opportunity, self.settings, now),
            r matches Ok(b) ==> (now - opportunity.timestamp > JIT_FRESHNESS_SECS ==> !b),
    {
        if now - opportunity.timestamp > JIT_FRESHNESS_SECS {
            return Ok(false);
        }
        if opportunity.profit_percentage < self.settings.trading.execution.min_profit_threshold {
            return Ok(false);
        }
        Ok(true)
    }
}

proof fn lemma_fundamental_div_mod_wrap(x: int, d: int)
    requires
        d > 0,
        x >= 0,
    ensures
        (x / d) * d <= x,
{
    vstd::arithmetic::div_mod::lemma_fundamental_div_mod(x, d);
    assert((x / d) * d == x - x % d) by (nonlinear_arith)
        requires
            x == d * (x / d) + x % d,
    ;
    vstd::arithmetic::div_mod::lemma_mod_bound(x, d);
}

} // verus!
