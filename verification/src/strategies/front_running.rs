//! Pre-emption strategy: reacts to a locally observed queue of pending
//! counterparty actions. A fresh pending action with enough price impact
//! yields an opposite-then-same-direction two-leg route, sized as a
//! fraction of the observed action and clamped to the position limits.

use vstd::prelude::*;
use crate::math::{
    int_max, int_min, lemma_bound_from_scaled, max_u64, min_u64, mul_div_u64, mul_div_wide,
    rate_of_wide, sat_u64, scaled_ratio_i64,
};
use crate::settings::Settings;
use crate::types::{
    ArbitrageError, ArbitrageOpportunity, MarketState, TokenPair, TradeSide, TradeStep,
    find_market_state, lemma_find_market_some, spec_find_market, spec_has_market, PRICE_SCALE,
    RATE_SCALE,
};
use crate::profit::TRADING_FEE_PPM;

verus! {

broadcast use vstd::seq_lib::group_to_multiset_ensures;

/// Freshness window: a pre-emption opportunity older than this many
/// seconds fails re-validation.
pub const FRONT_FRESHNESS_SECS: i64 = 1;

/// A pending action older than this many seconds is no longer worth
/// reacting to.
pub const PENDING_TX_MAX_AGE_SECS: i64 = 2;

/// Flat slippage estimate of this strategy, in parts per million.
pub const FRONT_SLIPPAGE_PPM: u64 = 1000;

/// Price impact per base unit of the pending action, in parts per
/// million.
pub const IMPACT_PPM_PER_UNIT: u64 = 100;

/// Assumed post-impact drift used for the exit price, in parts per
/// million (one percent).
pub const EXIT_DRIFT_PPM: u64 = 10000;

/// A pending counterparty action observed in the local queue.
#[derive(Debug, Clone, Copy, PartialEq, Eq, Structural)]
pub struct PendingTransaction {
    pub market: u64,
    pub side: TradeSide,
    /// Amount in base smallest units.
    pub amount: u64,
    /// Quoted price in micro quote-units per base unit.
    pub price: u64,
    /// Unix seconds at observation.
    pub timestamp: i64,
}

pub open spec fn spec_opposite(side: TradeSide) -> TradeSide {
    match side {
        TradeSide::Buy => TradeSide::Sell,
        TradeSide::Sell => TradeSide::Buy,
    }
}

/// Estimated price impact of a pending action, in parts per million,
/// capped at one whole price.
pub open spec fn spec_capped_impact_ppm(tx: PendingTransaction) -> int {
    int_min(tx.amount as int * IMPACT_PPM_PER_UNIT as int, RATE_SCALE as int)
}

/// A pending action is worth pre-empting when it is fresh, large enough
/// to move the market, the market has depth and an uncrossed book, and
/// the projected impact clears the spread threshold.
pub open spec fn spec_front_suitable(
    tx: PendingTransaction,
    st: MarketState,
    s: Settings,
    now: i64,
) -> bool {
    &&& now - tx.timestamp <= PENDING_TX_MAX_AGE_SECS
    &&& tx.amount >= st.liquidity / 100
    &&& st.liquidity >= s.trading.markets.min_liquidity
    &&& st.spec_healthy()
    &&& tx.amount as int * IMPACT_PPM_PER_UNIT as int >= s.trading.markets.max_spread as int
}

/// Position size: a quarter of the observed action, capped by the
/// position limit, then raised to the minimum profitable size.
pub open spec fn spec_front_size(tx: PendingTransaction, st: MarketState, s: Settings) -> int {
    int_max(
        int_min(tx.amount as int / 4, s.trading.execution.max_position_size as int),
        sat_u64(
            st.best_ask as int * TRADING_FEE_PPM as int
                / s.trading.execution.min_profit_threshold as int,
        ),
    )
}

/// Entry at the ask marked up by the flat slippage.
pub open spec fn spec_front_entry_price(st: MarketState) -> int {
    sat_u64(st.best_ask as int * (RATE_SCALE + FRONT_SLIPPAGE_PPM) as int / RATE_SCALE as int)
}

/// The price expected once the pending action lands.
pub open spec fn spec_front_expected_price(tx: PendingTransaction, st: MarketState) -> int {
    match tx.side {
        TradeSide::Buy => sat_u64(
            st.best_ask as int * (RATE_SCALE as int + spec_capped_impact_ppm(tx))
                / RATE_SCALE as int,
        ),
        TradeSide::Sell => sat_u64(
            st.best_bid as int * (RATE_SCALE as int - spec_capped_impact_ppm(tx))
                / RATE_SCALE as int,
        ),
    }
}

/// The exit price after the assumed post-impact drift.
pub open spec fn spec_front_exit_price(tx: PendingTransaction, st: MarketState) -> int {
    match tx.side {
        TradeSide::Buy => sat_u64(
            spec_front_expected_price(tx, st) * (RATE_SCALE + EXIT_DRIFT_PPM) as int
                / RATE_SCALE as int,
        ),
        TradeSide::Sell => sat_u64(
            spec_front_expected_price(tx, st) * (RATE_SCALE - EXIT_DRIFT_PPM) as int
                / RATE_SCALE as int,
        ),
    }
}

/// Net profit and entry cost of the pre-emption, in micro quote-units.
pub open spec fn spec_front_net_and_entry(
    tx: PendingTransaction,
    st: MarketState,
    size: int,
    s: Settings,
) -> (int, int) {
    let entry_value = spec_front_entry_price(st) * size / PRICE_SCALE as int;
    let exit_value = spec_front_exit_price(tx, st) * size / PRICE_SCALE as int;
    let gross = match tx.side {
        TradeSide::Buy => exit_value - entry_value,
        TradeSide::Sell => entry_value - exit_value,
    };
    let fees = (size * st.best_ask as int / PRICE_SCALE as int) * TRADING_FEE_PPM as int
        / RATE_SCALE as int;
    (gross - fees, entry_value)
}

/// The candidate a pending action yields: `None` when unsuitable,
/// loss-making or below the profit floor; otherwise profit percentage
/// (ppm), estimated profit and size.
pub open spec fn spec_front_candidate(
    tx: PendingTransaction,
    st: MarketState,
    s: Settings,
    now: i64,
) -> Option<(i64, u64, u64)> {
    if !spec_front_suitable(tx, st, s, now) {
        None
    } else {
        let size = spec_front_size(tx, st, s);
        let pr = spec_front_net_and_entry(tx, st, size, s);
        if pr.0 < 0 || pr.1 < 1 {
            None
        } else {
            let pct = int_min(pr.0 * RATE_SCALE as int / pr.1, i64::MAX as int);
            if pct < s.trading.execution.min_profit_threshold as int {
                None
            } else {
                Some((pct as i64, sat_u64(pr.0) as u64, size as u64))
            }
        }
    }
}

/// The two-leg route: enter against the pending action at the ask, exit
/// with it at the bid.
pub open spec fn spec_front_route(tx: PendingTransaction, st: MarketState, size: u64) -> Seq<
    TradeStep,
> {
    seq![
        TradeStep {
            market: st.market_address,
            side: spec_opposite(tx.side),
            amount: size,
            price: st.best_ask,
        },
        TradeStep { market: st.market_address, side: tx.side, amount: size, price: st.best_bid },
    ]
}

/// Whether `o` is exactly the opportunity this pending action yields at
/// the given instant.
pub open spec fn spec_is_front_opportunity(
    tx: PendingTransaction,
    st: MarketState,
    s: Settings,
    now: i64,
    o: ArbitrageOpportunity,
) -> bool {
    match spec_front_candidate(tx, st, s, now) {
        Option::None => false,
        Option::Some(c) => {
            &&& o.source_market == tx.market
            &&& o.target_market == tx.market
            &&& o.token_pair.base_token == st.base_token
            &&& o.token_pair.quote_token == st.quote_token
            &&& o.profit_percentage == c.0
            &&& o.required_amount == c.2
            &&& o.estimated_profit == c.1
            &&& o.route@ == spec_front_route(tx, st, c.2)
            &&& o.timestamp == now
        },
    }
}

/// A market with a crossed book yields no pre-emption opportunity.
pub proof fn lemma_crossed_market_yields_no_front(
    tx: PendingTransaction,
    st: MarketState,
    s: Settings,
    now: i64,
    o: ArbitrageOpportunity,
)
    requires
        st.best_bid > st.best_ask,
    ensures
        !spec_is_front_opportunity(tx, st, s, now, o),
{
}

/// Whether a pre-emption opportunity still stands: it must be very
/// fresh, and its market must still have the required depth.
pub open spec fn spec_front_validate(
    states: Seq<MarketState>,
    s: Settings,
    opp: ArbitrageOpportunity,
    now: i64,
) -> bool {
    &&& now - opp.timestamp <= FRONT_FRESHNESS_SECS
    &&& (spec_find_market(states, opp.source_market) matches Some(st) && st.liquidity
        >= s.trading.markets.min_liquidity)
}

/// Whether `o` is the opportunity of some observed pending action.
pub open spec fn spec_front_sourced(
    states: Seq<MarketState>,
    s: Settings,
    txs: Seq<PendingTransaction>,
    now: i64,
    o: ArbitrageOpportunity,
) -> bool {
    exists|t: int|
        0 <= t < txs.len() && spec_is_front_opportunity(
            txs[t],
            spec_find_market(states, txs[t].market)->Some_0,
            s,
            now,
            o,
        )
}

/// Whether the pending action at `t` has its opportunity present in `v`.
pub open spec fn spec_front_represented(
    states: Seq<MarketState>,
    s: Settings,
    txs: Seq<PendingTransaction>,
    now: i64,
    t: int,
    v: Seq<ArbitrageOpportunity>,
) -> bool {
    exists|k: int|
        0 <= k < v.len() && spec_is_front_opportunity(
            txs[t],
            spec_find_market(states, txs[t].market)->Some_0,
            s,
            now,
            v[k],
        )
}

/// Some observed action references a market missing from the snapshot,
/// so the scan fails.
pub open spec fn spec_front_scan_blocked(
    states: Seq<MarketState>,
    txs: Seq<PendingTransaction>,
) -> bool {
    exists|t: int|
        0 <= t < txs.len() && !spec_has_market(states, (#[trigger] txs[t]).market)
}

/// Pairwise-distinct markets across the observed actions.
pub open spec fn spec_front_distinct_markets(txs: Seq<PendingTransaction>) -> bool {
    forall|i: int, j: int| 0 <= i < j < txs.len() ==> txs[i].market != txs[j].market
}

/// No entry of `v` is sourced from an action at position `from` onward.
pub open spec fn spec_front_sources_before(
    txs: Seq<PendingTransaction>,
    from: int,
    v: Seq<ArbitrageOpportunity>,
) -> bool {
    forall|k: int, t: int|
        0 <= k < v.len() && from <= t < txs.len() ==> (#[trigger] v[k]).source_market
            != (#[trigger] txs[t]).market
}

/// Every entry of `v` is the opportunity of some observed action.
pub open spec fn spec_front_scan_sound(
    states: Seq<MarketState>,
    s: Settings,
    txs: Seq<PendingTransaction>,
    now: i64,
    v: Seq<ArbitrageOpportunity>,
) -> bool {
    forall|k: int|
        0 <= k < v.len() ==> spec_front_sourced(states, s, txs, now, #[trigger] v[k])
}

/// Every observed action before `upto` whose candidate exists is
/// represented in `v`.
pub open spec fn spec_front_scan_complete(
    states: Seq<MarketState>,
    s: Settings,
    txs: Seq<PendingTransaction>,
    now: i64,
    upto: int,
    v: Seq<ArbitrageOpportunity>,
) -> bool {
    forall|t: int|
        0 <= t < upto && spec_has_market(states, (#[trigger] txs[t]).market)
            && spec_front_candidate(
            txs[t],
            spec_find_market(states, txs[t].market)->Some_0,
            s,
            now,
        ) is Some ==> spec_front_represented(states, s, txs, now, t, v)
}

proof fn lemma_front_sound_push(
    states: Seq<MarketState>,
    s: Settings,
    txs: Seq<PendingTransaction>,
    now: i64,
    v: Seq<ArbitrageOpportunity>,
    o: ArbitrageOpportunity,
    t: int,
)
    requires
        spec_front_scan_sound(states, s, txs, now, v),
        0 <= t < txs.len(),
        spec_is_front_opportunity(
            txs[t],
            spec_find_market(states, txs[t].market)->Some_0,
            s,
            now,
            o,
        ),
    ensures
        spec_front_scan_sound(states, s, txs, now, v.push(o)),
{
    let w = v.push(o);
    assert forall|k: int| 0 <= k < w.len() implies spec_front_sourced(
        states,
        s,
        txs,
        now,
        #[trigger] w[k],
    ) by {
        if k < v.len() {
            assert(w[k] == v[k]);
        } else {
            assert(w[k] == o);
            assert(spec_front_sourced(states, s, txs, now, o));
        }
    }
}

proof fn lemma_front_complete_push(
    states: Seq<MarketState>,
    s: Settings,
    txs: Seq<PendingTransaction>,
    now: i64,
    i: int,
    v: Seq<ArbitrageOpportunity>,
    o: ArbitrageOpportunity,
)
    requires
        spec_front_scan_complete(states, s, txs, now, i, v),
        0 <= i < txs.len(),
        spec_is_front_opportunity(
            txs[i],
            spec_find_market(states, txs[i].market)->Some_0,
            s,
            now,
            o,
        ),
    ensures
        spec_front_scan_complete(states, s, txs, now, i + 1, v.push(o)),
{
    let w = v.push(o);
    assert forall|t: int|
        0 <= t < i + 1 && spec_has_market(states, (#[trigger] txs[t]).market)
            && spec_front_candidate(
            txs[t],
            spec_find_market(states, txs[t].market)->Some_0,
            s,
            now,
        ) is Some implies spec_front_represented(states, s, txs, now, t, w) by {
        if t == i {
            assert(w[v.len() as int] == o);
        } else {
            assert(spec_front_represented(states, s, txs, now, t, v));
            let k1 = choose|k1: int|
                0 <= k1 < v.len() && spec_is_front_opportunity(
                    txs[t],
                    spec_find_market(states, txs[t].market)->Some_0,
                    s,
                    now,
                    v[k1],
                );
            assert(w[k1] == v[k1]);
        }
    }
}

proof fn lemma_front_complete_skip(
    states: Seq<MarketState>,
    s: Settings,
    txs: Seq<PendingTransaction>,
    now: i64,
    i: int,
    v: Seq<ArbitrageOpportunity>,
)
    requires
        spec_front_scan_complete(states, s, txs, now, i, v),
        0 <= i < txs.len(),
        spec_has_market(states, txs[i].market) ==> spec_front_candidate(
            txs[i],
            spec_find_market(states, txs[i].market)->Some_0,
            s,
            now,
        ) is None,
    ensures
        spec_front_scan_complete(states, s, txs, now, i + 1, v),
{
}

proof fn lemma_front_sound_permutation(
    states: Seq<MarketState>,
    s: Settings,
    txs: Seq<PendingTransaction>,
    now: i64,
    a: Seq<ArbitrageOpportunity>,
    b: Seq<ArbitrageOpportunity>,
)
    requires
        spec_front_scan_sound(states, s, txs, now, a),
        a.to_multiset() == b.to_multiset(),
    ensures
        spec_front_scan_sound(states, s, txs, now, b),
{
    assert forall|k: int| 0 <= k < b.len() implies spec_front_sourced(
        states,
        s,
        txs,
        now,
        #[trigger] b[k],
    ) by {
        let o = b[k];
        assert(b.contains(o));
        assert(b.to_multiset().count(o) > 0);
        assert(a.to_multiset().count(o) > 0);
        assert(a.contains(o));
        let k1 = choose|k1: int| 0 <= k1 < a.len() && a[k1] == o;
        assert(a[k1] == o);
        assert(spec_front_sourced(states, s, txs, now, a[k1]));
    }
}

proof fn lemma_front_complete_permutation(
    states: Seq<MarketState>,
    s: Settings,
    txs: Seq<PendingTransaction>,
    now: i64,
    upto: int,
    a: Seq<ArbitrageOpportunity>,
    b: Seq<ArbitrageOpportunity>,
)
    requires
        spec_front_scan_complete(states, s, txs, now, upto, a),
        a.to_multiset() == b.to_multiset(),
    ensures
        spec_front_scan_complete(states, s, txs, now, upto, b),
{
    assert forall|t: int|
        0 <= t < upto && spec_has_market(states, (#[trigger] txs[t]).market)
            && spec_front_candidate(
            txs[t],
            spec_find_market(states, txs[t].market)->Some_0,
            s,
            now,
        ) is Some implies spec_front_represented(states, s, txs, now, t, b) by {
        assert(spec_front_represented(states, s, txs, now, t, a));
        let k1 = choose|k1: int|
            0 <= k1 < a.len() && spec_is_front_opportunity(
                txs[t],
                spec_find_market(states, txs[t].market)->Some_0,
                s,
                now,
                a[k1],
            );
        let o = a[k1];
        assert(a.contains(o));
        assert(a.to_multiset().count(o) > 0);
        assert(b.to_multiset().count(o) > 0);
        assert(b.contains(o));
        let k2 = choose|k2: int| 0 <= k2 < b.len() && b[k2] == o;
        assert(b[k2] == o);
    }
}

pub struct FrontRunningStrategy {
    pub settings: Settings,
    pub market_states: Vec<MarketState>,
    pub pending_transactions: Vec<PendingTransaction>,
}

impl FrontRunningStrategy {
    /// A strategy over the validated default configuration, an empty
    /// snapshot and an empty pending queue.
    pub fn new() -> (r: Self)
        ensures
            r.settings.spec_valid(),
            r.market_states@.len() == 0,
            r.pending_transactions@.len() == 0,
    {
        FrontRunningStrategy {
            settings: Settings::default(),
            market_states: Vec::new(),
            pending_transactions: Vec::new(),
        }
    }

    /// A strategy over the engine's validated settings and snapshot.
    pub fn with_market_data(settings: Settings, market_states: Vec<MarketState>) -> (r: Self)
        requires
            settings.spec_valid(),
        ensures
            r.settings == settings,
            r.market_states@ == market_states@,
            r.pending_transactions@.len() == 0,
    {
        FrontRunningStrategy { settings, market_states, pending_transactions: Vec::new() }
    }

    /// Replace the snapshot this strategy scans.
    pub fn set_market_states(&mut self, market_states: Vec<MarketState>)
        ensures
            final(self).settings == old(self).settings,
            final(self).pending_transactions@ == old(self).pending_transactions@,
            final(self).market_states@ == market_states@,
    {
        self.market_states = market_states;
    }

    /// Record one observed pending action at the back of the queue.
    pub fn push_pending_transaction(&mut self, tx: PendingTransaction)
        ensures
            final(self).settings == old(self).settings,
            final(self).market_states@ == old(self).market_states@,
            final(self).pending_transactions@ == old(self).pending_transactions@.push(tx),
    {
        self.pending_transactions.push(tx);
    }

    pub fn name(&self) -> (r: &'static str)
        ensures
            r@ == "Front Running Strategy"@,
    {
        "Front Running Strategy"
    }

    fn get_market_state<'a>(&'a self, market: u64) -> (r: Result<&'a MarketState, ArbitrageError>)
        ensures
            r matches Ok(st) ==> spec_find_market(self.market_states@, market) == Some(*st)
                && st.market_address == market,
            r is Err <==> !spec_has_market(self.market_states@, market),
            r is Err ==> (r matches Err(ArbitrageError::MarketError(m)) && m@
                == "Market state not found"@),
    {
        proof {
            lemma_find_market_some(self.market_states@, market);
        }
        match find_market_state(self.market_states.as_slice(), market) {
            Some(st) => Ok(st),
            None => Err(ArbitrageError::MarketError("Market state not found".to_owned())),
        }
    }

    /// Snapshot of the locally observed pending queue.
    fn analyze_mempool(&self) -> (r: Result<Vec<PendingTransaction>, ArbitrageError>)
        ensures
            r matches Ok(v) && v@ == self.pending_transactions@,
    {
        let txs = self.pending_transactions.clone();
        proof {
            assert forall|i: int| 0 <= i < self.pending_transactions@.len() implies txs@[i]
                == self.pending_transactions@[i] by {
                assert(cloned::<PendingTransaction>(self.pending_transactions@[i], txs@[i]));
            }
            assert(txs@ =~= self.pending_transactions@);
        }
        Ok(txs)
    }

    fn calculate_market_depth(&self, _market_state: &MarketState) -> (r: Result<
        u64,
        ArbitrageError,
    >)
        ensures
            r matches Ok(v) && v == RATE_SCALE,
    {
        Ok(RATE_SCALE)
    }

    fn calculate_min_impact_size(&self, market_state: &MarketState) -> (r: Result<
        u64,
        ArbitrageError,
    >)
        ensures
            r matches Ok(v) && v == market_state.liquidity / 100,
    {
        let liquidity: u64 = match market_state.get_liquidity() {
            Ok(v) => v,
            Err(e) => {
                return Err(e);
            },
        };
        Ok(liquidity / 100)
    }

    /// Projected impact of the pending action, in parts per million,
    /// before capping.
    fn calculate_price_impact(&self, tx: &PendingTransaction, _market_state: &MarketState) -> (r:
        Result<i128, ArbitrageError>)
        ensures
            r matches Ok(v) && v == tx.amount as int * IMPACT_PPM_PER_UNIT as int,
    {
        proof {
            assert(IMPACT_PPM_PER_UNIT == 100);
        }
        Ok(tx.amount as i128 * IMPACT_PPM_PER_UNIT as i128)
    }

    fn is_transaction_suitable(
        &self,
        tx: &PendingTransaction,
        market_state: &MarketState,
        now: i64,
    ) -> (r: Result<bool, ArbitrageError>)
        requires
            tx.timestamp >= 0,
            now >= 0,
        ensures
            r matches Ok(b) && b == spec_front_suitable(*tx, *market_state, self.settings, now),
    {
        if now - tx.timestamp > PENDING_TX_MAX_AGE_SECS {
            return Ok(false);
        }
        let min_impact_size: u64 = match self.calculate_min_impact_size(market_state) {
            Ok(v) => v,
            Err(e) => {
                return Err(e);
            },
        };
        if tx.amount < min_impact_size {
            return Ok(false);
        }
        let liquidity: u64 = match market_state.get_liquidity() {
            Ok(v) => v,
            Err(e) => {
                return Err(e);
            },
        };
        if liquidity < self.settings.trading.markets.min_liquidity {
            return Ok(false);
        }
        if !market_state.is_healthy() {
            return Ok(false);
        }
        let price_impact: i128 = match self.calculate_price_impact(tx, market_state) {
            Ok(v) => v,
            Err(e) => {
                return Err(e);
            },
        };
        if price_impact < self.settings.trading.markets.max_spread as i128 {
            return Ok(false);
        }
        Ok(true)
    }

    fn calculate_min_profitable_size(&self, market_state: &MarketState) -> (r: Result<
        u64,
        ArbitrageError,
    >)
        requires
            self.settings.spec_valid(),
        ensures
            r matches Ok(v) && v == sat_u64(
                market_state.best_ask as int * TRADING_FEE_PPM as int
                    / self.settings.trading.execution.min_profit_threshold as int,
            ),
    {
        let threshold: i64 = self.settings.trading.execution.min_profit_threshold;
        Ok(mul_div_u64(market_state.best_ask, TRADING_FEE_PPM, threshold as u64))
    }

    fn calculate_optimal_position(&self, tx: &PendingTransaction, market_state: &MarketState) -> (r:
        Result<u64, ArbitrageError>)
        requires
            self.settings.spec_valid(),
        ensures
            r matches Ok(v) && v == spec_front_size(*tx, *market_state, self.settings),
    {
        let base_size: u64 = tx.amount / 4;
        let market_depth: u64 = match self.calculate_market_depth(market_state) {
            Ok(v) => v,
            Err(e) => {
                return Err(e);
            },
        };
        let depth_adjusted: u64 = mul_div_u64(base_size, market_depth, RATE_SCALE);
        proof {
            vstd::arithmetic::div_mod::lemma_div_multiples_vanish(
                base_size as int,
                RATE_SCALE as int,
            );
            vstd::arithmetic::mul::lemma_mul_is_commutative(base_size as int, RATE_SCALE as int);
        }
        let risk_adjusted: u64 = min_u64(
            depth_adjusted,
            self.settings.trading.execution.max_position_size,
        );
        let min_size: u64 = match self.calculate_min_profitable_size(market_state) {
            Ok(v) => v,
            Err(e) => {
                return Err(e);
            },
        };
        Ok(max_u64(risk_adjusted, min_size))
    }

    fn estimate_slippage(&self, _size: u64, _market_state: &MarketState) -> (r: Result<
        u64,
        ArbitrageError,
    >)
        ensures
            r matches Ok(v) && v == FRONT_SLIPPAGE_PPM,
    {
        Ok(FRONT_SLIPPAGE_PPM)
    }

    fn calculate_entry_price(&self, size: u64, market_state: &MarketState) -> (r: Result<
        u64,
        ArbitrageError,
    >)
        ensures
            r matches Ok(v) && v == spec_front_entry_price(*market_state),
    {
        let slippage: u64 = match self.estimate_slippage(size, market_state) {
            Ok(v) => v,
            Err(e) => {
                return Err(e);
            },
        };
        Ok(mul_div_u64(market_state.best_ask, RATE_SCALE + slippage, RATE_SCALE))
    }

    fn calculate_expected_price(&self, tx: &PendingTransaction, market_state: &MarketState) -> (r:
        Result<u64, ArbitrageError>)
        ensures
            r matches Ok(v) && v == spec_front_expected_price(*tx, *market_state),
    {
        let impact_raw: i128 = match self.calculate_price_impact(tx, market_state) {
            Ok(v) => v,
            Err(e) => {
                return Err(e);
            },
        };
        let impact: u64 = if impact_raw > RATE_SCALE as i128 {
            RATE_SCALE
        } else {
            impact_raw as u64
        };
        match tx.side {
            TradeSide::Buy => Ok(
                mul_div_u64(market_state.best_ask, RATE_SCALE + impact, RATE_SCALE),
            ),
            TradeSide::Sell => Ok(
                mul_div_u64(market_state.best_bid, RATE_SCALE - impact, RATE_SCALE),
            ),
        }
    }

    /// Profit percentage (ppm) and estimated profit of the pre-emption.
    fn calculate_front_running_profit(
        &self,
        tx: &PendingTransaction,
        position_size: u64,
        market_state: &MarketState,
    ) -> (r: Result<(i64, u64), ArbitrageError>)
        requires
            self.settings.spec_valid(),
        ensures
            r matches Ok(pr) ==> {
                let net = spec_front_net_and_entry(
                    *tx,
                    *market_state,
                    position_size as int,
                    self.settings,
                ).0;
                let entry = spec_front_net_and_entry(
                    *tx,
                    *market_state,
                    position_size as int,
                    self.settings,
                ).1;
                &&& (net >= 0 && entry >= 1) ==> (pr.0 as int == int_min(
                    net * RATE_SCALE as int / entry,
                    i64::MAX as int,
                ) && pr.1 == sat_u64(net))
                &&& (net < 0 || entry < 1) ==> (pr.0 == -1 && pr.1 == 0)
            },
            r is Ok,
    {
        let entry_price: u64 = match self.calculate_entry_price(position_size, market_state) {
            Ok(v) => v,
            Err(e) => {
                return Err(e);
            },
        };
        let expected_price: u64 = match self.calculate_expected_price(tx, market_state) {
            Ok(v) => v,
            Err(e) => {
                return Err(e);
            },
        };
        let exit_price: u64 = match tx.side {
            TradeSide::Buy => mul_div_u64(expected_price, RATE_SCALE + EXIT_DRIFT_PPM, RATE_SCALE),
            TradeSide::Sell => mul_div_u64(expected_price, RATE_SCALE - EXIT_DRIFT_PPM, RATE_SCALE),
        };
        let entry_value: i128 = mul_div_wide(entry_price, position_size, PRICE_SCALE);
        let exit_value: i128 = mul_div_wide(exit_price, position_size, PRICE_SCALE);
        proof {
            vstd::arithmetic::mul::lemma_mul_is_commutative(
                entry_price as int,
                position_size as int,
            );
            vstd::arithmetic::mul::lemma_mul_is_commutative(
                exit_price as int,
                position_size as int,
            );
        }
        let gross_profit: i128 = match tx.side {
            TradeSide::Buy => exit_value - entry_value,
            TradeSide::Sell => entry_value - exit_value,
        };
        let traded_value: i128 = mul_div_wide(position_size, market_state.best_ask, PRICE_SCALE);
        proof {
            lemma_bound_from_scaled(
                traded_value as int,
                PRICE_SCALE as int,
                u64::MAX as int * u64::MAX as int,
            );
            assert(u64::MAX as int * u64::MAX as int / PRICE_SCALE as int
                <= 340282366920938463426481119284350int);
        }
        let fees: i128 = rate_of_wide(traded_value, TRADING_FEE_PPM);
        let net_profit: i128 = gross_profit - fees;
        if net_profit < 0 {
            return Ok((-1, 0));
        }
        if entry_value < 1 {
            return Ok((-1, 0));
        }
        let profit_percentage: i64 = scaled_ratio_i64(net_profit, entry_value, RATE_SCALE);
        let estimated: u64 = if net_profit > u64::MAX as i128 {
            u64::MAX
        } else {
            net_profit as u64
        };
        Ok((profit_percentage, estimated))
    }

    fn create_front_running_route(
        &self,
        tx: &PendingTransaction,
        position_size: u64,
        market_state: &MarketState,
    ) -> (r: Result<Vec<TradeStep>, ArbitrageError>)
        ensures
            r matches Ok(v) && v@ == spec_front_route(*tx, *market_state, position_size),
    {
        let entry_side: TradeSide = match tx.side {
            TradeSide::Buy => TradeSide::Sell,
            TradeSide::Sell => TradeSide::Buy,
        };
        let mut route: Vec<TradeStep> = Vec::new();
        route.push(
            TradeStep {
                market: market_state.market_address,
                side: entry_side,
                amount: position_size,
                price: market_state.best_ask,
            },
        );
        route.push(
            TradeStep {
                market: market_state.market_address,
                side: tx.side,
                amount: position_size,
                price: market_state.best_bid,
            },
        );
        proof {
            assert(route@ =~= spec_front_route(*tx, *market_state, position_size));
        }
        Ok(route)
    }

    /// The opportunity one pending action yields; fails only when its
    /// market is missing from the snapshot.
    fn analyze_transaction_opportunity(&self, tx: &PendingTransaction, now: i64) -> (r: Result<
        Option<ArbitrageOpportunity>,
        ArbitrageError,
    >)
        requires
            self.settings.spec_valid(),
            tx.timestamp >= 0,
            now >= 0,
        ensures
            !spec_has_market(self.market_states@, tx.market) ==> (r matches Err(
                ArbitrageError::MarketError(m),
            ) && m@ == "Market state not found"@),
            spec_has_market(self.market_states@, tx.market) ==> (r matches Ok(o) && (match o {
                Option::None => spec_front_candidate(
                    *tx,
                    spec_find_market(self.market_states@, tx.market)->Some_0,
                    self.settings,
                    now,
                ) is None,
                Option::Some(opp) => spec_is_front_opportunity(
                    *tx,
                    spec_find_market(self.market_states@, tx.market)->Some_0,
                    self.settings,
                    now,
                    opp,
                ),
            })),
    {
        let market_state: &MarketState = match self.get_market_state(tx.market) {
            Ok(st) => st,
            Err(e) => {
                return Err(e);
            },
        };
        let suitable: bool = match self.is_transaction_suitable(tx, market_state, now) {
            Ok(b) => b,
            Err(e) => {
                return Err(e);
            },
        };
        if !suitable {
            return Ok(None);
        }
        let position_size: u64 = match self.calculate_optimal_position(tx, market_state) {
            Ok(v) => v,
            Err(e) => {
                return Err(e);
            },
        };
        let (profit_percentage, estimated_profit) = match self.calculate_front_running_profit(
            tx,
            position_size,
            market_state,
        ) {
            Ok(pr) => pr,
            Err(e) => {
                return Err(e);
            },
        };
        if profit_percentage < self.settings.trading.execution.min_profit_threshold {
            return Ok(None);
        }
        let route: Vec<TradeStep> = match self.create_front_running_route(
            tx,
            position_size,
            market_state,
        ) {
            Ok(v) => v,
            Err(e) => {
                return Err(e);
            },
        };
        let token_pair: TokenPair = market_state.token_pair();
        Ok(
            Some(
                ArbitrageOpportunity {
                    source_market: tx.market,
                    target_market: tx.market,
                    token_pair,
                    profit_percentage,
                    required_amount: position_size,
                    estimated_profit,
                    route,
                    timestamp: now,
                },
            ),
        )
    }

    /// Scan the pending queue; the result is sorted by descending profit
    /// percentage. Fails exactly when some observed action references a
    /// market missing from the snapshot.
    #[verifier::rlimit(100)]
    #[verifier::spinoff_prover]
    fn find_front_running_opportunities(&self, _markets: &[u64], now: i64) -> (r: Result<
        Vec<ArbitrageOpportunity>,
        ArbitrageError,
    >)
        requires
            self.settings.spec_valid(),
            now >= 0,
            forall|t: int|
                0 <= t < self.pending_transactions@.len()
                    ==> #[trigger] self.pending_transactions@[t].timestamp >= 0,
        ensures
            r is Err <==> spec_front_scan_blocked(self.market_states@, self.pending_transactions@),
            r matches Ok(v) ==> {
                &&& crate::strategies::spec_sorted_desc(v@)
                &&& spec_front_scan_sound(
                    self.market_states@,
                    self.settings,
                    self.pending_transactions@,
                    now,
                    v@,
                )
                &&& spec_front_scan_complete(
                    self.market_states@,
                    self.settings,
                    self.pending_transactions@,
                    now,
                    self.pending_transactions@.len() as int,
                    v@,
                )
                &&& (spec_front_distinct_markets(self.pending_transactions@)
                    ==> v@.no_duplicates())
            },
    {
        let mempool_txs: Vec<PendingTransaction> = match self.analyze_mempool() {
            Ok(v) => v,
            Err(e) => {
                return Err(e);
            },
        };
        let n: usize = mempool_txs.len();
        let mut opportunities: Vec<ArbitrageOpportunity> = Vec::new();
        let mut i: usize = 0;
        while i < n
            invariant
                0 <= i <= n,
                n == mempool_txs@.len(),
                mempool_txs@ == self.pending_transactions@,
                self.settings.spec_valid(),
                now >= 0,
                forall|t: int|
                    0 <= t < self.pending_transactions@.len()
                        ==> #[trigger] self.pending_transactions@[t].timestamp >= 0,
                forall|t: int|
                    0 <= t < i ==> spec_has_market(
                        self.market_states@,
                        #[trigger] self.pending_transactions@[t].market,
                    ),
                spec_front_scan_sound(
                    self.market_states@,
                    self.settings,
                    self.pending_transactions@,
                    now,
                    opportunities@,
                ),
                spec_front_scan_complete(
                    self.market_states@,
                    self.settings,
                    self.pending_transactions@,
                    now,
                    i as int,
                    opportunities@,
                ),
                spec_front_distinct_markets(self.pending_transactions@)
                    ==> opportunities@.no_duplicates(),
                spec_front_distinct_markets(self.pending_transactions@)
                    ==> spec_front_sources_before(
                    self.pending_transactions@,
                    i as int,
                    opportunities@,
                ),
            decreases n - i,
        {
            let tx: &PendingTransaction = &mempool_txs[i];
            let pre = Ghost(opportunities@);
            match self.analyze_transaction_opportunity(tx, now) {
                Ok(Some(opp)) => {
                    opportunities.push(opp);
                    proof {
                        lemma_front_sound_push(
                            self.market_states@,
                            self.settings,
                            self.pending_transactions@,
                            now,
                            pre@,
                            opp,
                            i as int,
                        );
                        lemma_front_complete_push(
                            self.market_states@,
                            self.settings,
                            self.pending_transactions@,
                            now,
                            i as int,
                            pre@,
                            opp,
                        );
                        assert(opportunities@ == pre@.push(opp));
                        if spec_front_distinct_markets(self.pending_transactions@) {
                            assert(opp.source_market
                                == self.pending_transactions@[i as int].market);
                            assert forall|a: int, b: int|
                                0 <= a < opportunities@.len() && 0 <= b < opportunities@.len()
                                    && a != b implies opportunities@[a] != opportunities@[b] by {
                                let k1 = if a < b {
                                    a
                                } else {
                                    b
                                };
                                let k2 = if a < b {
                                    b
                                } else {
                                    a
                                };
                                assert(opportunities@[k1] == pre@[k1]);
                                if k2 < pre@.len() {
                                    assert(opportunities@[k2] == pre@[k2]);
                                } else {
                                    assert(opportunities@[k2] == opp);
                                    assert(pre@[k1].source_market
                                        != self.pending_transactions@[i as int].market);
                                }
                            }
                            assert forall|k: int, t: int|
                                0 <= k < opportunities@.len() && i as int + 1 <= t
                                    < self.pending_transactions@.len() implies (
                            #[trigger] opportunities@[k]).source_market != (
                            #[trigger] self.pending_transactions@[t]).market by {
                                if k < pre@.len() {
                                    assert(opportunities@[k] == pre@[k]);
                                } else {
                                    assert(opportunities@[k] == opp);
                                }
                            }
                        }
                    }
                },
                Ok(None) => {
                    proof {
                        lemma_front_complete_skip(
                            self.market_states@,
                            self.settings,
                            self.pending_transactions@,
                            now,
                            i as int,
                            pre@,
                        );
                    }
                },
                Err(e) => {
                    proof {
                        assert(!spec_has_market(
                            self.market_states@,
                            self.pending_transactions@[i as int].market,
                        ));
                        assert(spec_front_scan_blocked(
                            self.market_states@,
                            self.pending_transactions@,
                        ));
                    }
                    return Err(e);
                },
            }
            i = i + 1;
        }
        let unsorted = Ghost(opportunities@);
        crate::strategies::sort_opportunities_by_profit(&mut opportunities);
        proof {
            lemma_front_sound_permutation(
                self.market_states@,
                self.settings,
                self.pending_transactions@,
                now,
                unsorted@,
                opportunities@,
            );
            lemma_front_complete_permutation(
                self.market_states@,
                self.settings,
                self.pending_transactions@,
                now,
                n as int,
                unsorted@,
                opportunities@,
            );
            if spec_front_distinct_markets(self.pending_transactions@) {
                crate::strategies::lemma_no_duplicates_permutation(unsorted@, opportunities@);
            }
            assert(!spec_front_scan_blocked(self.market_states@, self.pending_transactions@)) by {
                if spec_front_scan_blocked(self.market_states@, self.pending_transactions@) {
                    let t = choose|t: int|
                        0 <= t < self.pending_transactions@.len() && !spec_has_market(
                            self.market_states@,
                            (#[trigger] self.pending_transactions@[t]).market,
                        );
                    assert(spec_has_market(
                        self.market_states@,
                        self.pending_transactions@[t].market,
                    ));
                }
            }
        }
        Ok(opportunities)
    }

    /// The strategy's analysis entry point: scan the pending queue and
    /// rank the candidates.
    pub fn analyze(&self, markets: &[u64], now: i64) -> (r: Result<
        Vec<ArbitrageOpportunity>,
        ArbitrageError,
    >)
        requires
            self.settings.spec_valid(),
            now >= 0,
            forall|t: int|
                0 <= t < self.pending_transactions@.len()
                    ==> #[trigger] self.pending_transactions@[t].timestamp >= 0,
        ensures
            r is Err <==> spec_front_scan_blocked(self.market_states@, self.pending_transactions@),
            r matches Ok(v) ==> {
                &&& crate::strategies::spec_sorted_desc(v@)
                &&& spec_front_scan_sound(
                    self.market_states@,
                    self.settings,
                    self.pending_transactions@,
                    now,
                    v@,
                )
                &&& spec_front_scan_complete(
                    self.market_states@,
                    self.settings,
                    self.pending_transactions@,
                    now,
                    self.pending_transactions@.len() as int,
                    v@,
                )
                &&& (spec_front_distinct_markets(self.pending_transactions@)
                    ==> v@.no_duplicates())
            },
    {
        self.find_front_running_opportunities(markets, now)
    }

    /// Re-validation gate: a pre-emption opportunity older than one
    /// second always fails; a fresh one needs its market still present
    /// with the required depth.
    pub fn validate(&self, opportunity: &ArbitrageOpportunity, now: i64) -> (r: Result<
        bool,
        ArbitrageError,
    >)
        requires
            opportunity.timestamp >= 0,
            now >= 0,
        ensures
            now - opportunity.timestamp > FRONT_FRESHNESS_SECS ==> (r matches Ok(b) && !b),
            now - opportunity.timestamp <= FRONT_FRESHNESS_SECS ==> {
                &&& r is Err <==> !spec_has_market(self.market_states@, opportunity.source_market)
                &&& (r matches Ok(b) ==> b == spec_front_validate(
                    self.market_states@,
                    self.settings,
                    *opportunity,
                    now,
                ))
            },
    {
        if now - opportunity.timestamp > FRONT_FRESHNESS_SECS {
            return Ok(false);
        }
        let market_state: &MarketState = match self.get_market_state(opportunity.source_market) {
            Ok(st) => st,
            Err(e) => {
                return Err(e);
            },
        };
        let liquidity: u64 = match market_state.get_liquidity() {
            Ok(v) => v,
            Err(e) => {
                return Err(e);
            },
        };
        if liquidity < self.settings.trading.markets.min_liquidity {
            return Ok(false);
        }
        Ok(true)
    }
}

} // verus!
