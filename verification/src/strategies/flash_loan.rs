//! Borrowed-capital round-trip strategy: for every ordered pair of
//! distinct markets, size a trade against both books, check that the
//! spread covers the worst-case borrow fee, and emit a four-leg route —
//! borrow, buy, sell, repay — executed as one atomic unit.

use vstd::prelude::*;
use crate::math::{
    int_max, int_min, lemma_bound_from_scaled, min_u64, mul_div_wide, rate_of_wide, sat_u64,
    scaled_ratio_i64,
};
use crate::settings::Settings;
use crate::types::{
    ArbitrageError, ArbitrageOpportunity, FlashLoanProtocol, MarketState, TokenPair, TradeSide,
    TradeStep, find_market_state, lemma_find_market_some, spec_find_market, spec_has_market,
    PRICE_SCALE, RATE_SCALE,
};
use crate::profit::TRADING_FEE_PPM;
use crate::dex::spec_ratio_ppm;

verus! {

broadcast use vstd::seq_lib::group_to_multiset_ensures;

/// Freshness window: a borrowed-capital opportunity older than this many
/// seconds fails re-validation.
pub const FLASH_FRESHNESS_SECS: i64 = 3;

/// Cap imposed by the lending protocols, in base smallest units.
pub const FLASH_LOAN_LIMIT: u64 = 1000000000;

/// The worst rate among the available lending protocols, in parts per
/// million; zero when none is configured.
pub open spec fn spec_max_rate(rates: Seq<(FlashLoanProtocol, u64)>) -> int
    decreases rates.len(),
{
    if rates.len() == 0 {
        0
    } else {
        int_max(spec_max_rate(rates.drop_last()), rates.last().1 as int)
    }
}

/// The protocol charging the lowest fee for the amount: first entry wins
/// ties, later entries replace only on a strictly lower fee.
pub open spec fn spec_best_protocol(rates: Seq<(FlashLoanProtocol, u64)>, amount: u64) -> Option<
    (FlashLoanProtocol, int),
>
    decreases rates.len(),
{
    if rates.len() == 0 {
        None
    } else {
        let prev = spec_best_protocol(rates.drop_last(), amount);
        let fee = amount as int * rates.last().1 as int / RATE_SCALE as int;
        if prev is None || fee < prev->Some_0.1 {
            Some((rates.last().0, fee))
        } else {
            prev
        }
    }
}

pub proof fn lemma_best_protocol_some(rates: Seq<(FlashLoanProtocol, u64)>, amount: u64)
    ensures
        spec_best_protocol(rates, amount) is Some <==> rates.len() > 0,
    decreases rates.len(),
{
    if rates.len() > 0 {
        lemma_best_protocol_some(rates.drop_last(), amount);
    }
}

/// Two markets qualify for borrowed-capital arbitrage when both have
/// depth, both books are uncrossed (crossed books are invalid data), the
/// source ask is priced, and the spread clears the worst-case borrow fee
/// on top of the profit floor.
pub open spec fn spec_flash_suitable(
    m1: MarketState,
    m2: MarketState,
    s: Settings,
    rates: Seq<(FlashLoanProtocol, u64)>,
) -> bool {
    let diff = spec_ratio_ppm(m2.best_bid, m1.best_ask);
    &&& m1.liquidity >= s.trading.markets.min_liquidity
    &&& m2.liquidity >= s.trading.markets.min_liquidity
    &&& m1.spec_healthy()
    &&& m2.spec_healthy()
    &&& m1.best_ask > 0
    &&& diff > 0
    &&& diff >= spec_max_rate(rates) + s.trading.execution.min_profit_threshold as int
}

/// Trade size: the lesser depth of the two markets, capped by the
/// position limit and the lending protocols' cap.
pub open spec fn spec_flash_size(m1: MarketState, m2: MarketState, s: Settings) -> int {
    int_min(
        int_min(
            int_min(m1.liquidity as int, m2.liquidity as int),
            s.trading.execution.max_position_size as int,
        ),
        FLASH_LOAN_LIMIT as int,
    )
}

/// Net profit and entry cost of the borrowed round trip, in micro
/// quote-units: exit value minus entry cost, borrow fee and the trading
/// fees of both legs.
pub open spec fn spec_flash_net_and_entry(
    m1: MarketState,
    m2: MarketState,
    size: int,
    rates: Seq<(FlashLoanProtocol, u64)>,
) -> (int, int) {
    let entry = size * m1.best_ask as int / PRICE_SCALE as int;
    let exit = size * m2.best_bid as int / PRICE_SCALE as int;
    let flash_fee = match spec_best_protocol(rates, size as u64) {
        Option::None => 0,
        Option::Some(p) => p.1,
    };
    let fee1 = entry * TRADING_FEE_PPM as int / RATE_SCALE as int;
    let fee2 = exit * TRADING_FEE_PPM as int / RATE_SCALE as int;
    (exit - entry - flash_fee - fee1 - fee2, entry)
}

/// The candidate an ordered market pair yields: `None` when unsuitable,
/// loss-making or below the profit floor; otherwise profit percentage
/// (ppm), estimated profit and size.
pub open spec fn spec_flash_candidate(
    m1: MarketState,
    m2: MarketState,
    s: Settings,
    rates: Seq<(FlashLoanProtocol, u64)>,
) -> Option<(i64, u64, u64)> {
    if !spec_flash_suitable(m1, m2, s, rates) {
        None
    } else {
        let size = spec_flash_size(m1, m2, s);
        let pr = spec_flash_net_and_entry(m1, m2, size, rates);
        if pr.0 < 0 || pr.1 < 1 {
            None
        } else {
            let pct = int_min(pr.0 * RATE_SCALE as int / pr.1, i64::MAX as int);
            if pct < s.trading.execution.min_profit_threshold as int {
                None
            } else {
                Some((pct as i64, sat_u64(pr.0) as u64, size as u64))
            }
        }
    }
}

/// The four-leg route: borrow, buy on the source, sell on the target,
/// repay. The borrow and repay legs are bound to the lending protocol
/// (market id 0) and carry no price.
pub open spec fn spec_flash_route(m1: MarketState, m2: MarketState, size: u64) -> Seq<TradeStep> {
    seq![
        TradeStep { market: 0, side: TradeSide::Buy, amount: size, price: 0 },
        TradeStep { market: m1.market_address, side: TradeSide::Buy, amount: size, price: m1.best_ask },
        TradeStep { market: m2.market_address, side: TradeSide::Sell, amount: size, price: m2.best_bid },
        TradeStep { market: 0, side: TradeSide::Sell, amount: size, price: 0 },
    ]
}

/// Leg ordering of a borrowed-capital route: the borrow leg comes first,
/// the repay leg last, and every trade leg lies strictly between them.
pub proof fn lemma_flash_route_ordering(m1: MarketState, m2: MarketState, size: u64)
    requires
        m1.market_address != 0,
        m2.market_address != 0,
    ensures
        spec_flash_route(m1, m2, size).len() == 4,
        spec_flash_route(m1, m2, size).first().market == 0,
        spec_flash_route(m1, m2, size).first().side == TradeSide::Buy,
        spec_flash_route(m1, m2, size).last().market == 0,
        spec_flash_route(m1, m2, size).last().side == TradeSide::Sell,
        forall|k: int|
            0 < k < spec_flash_route(m1, m2, size).len() - 1 ==> spec_flash_route(
                m1,
                m2,
                size,
            )[k].market != 0,
{
}

/// Whether `o` is exactly the opportunity this ordered market pair
/// yields at the given instant.
pub open spec fn spec_is_flash_opportunity(
    m1: MarketState,
    m2: MarketState,
    s: Settings,
    rates: Seq<(FlashLoanProtocol, u64)>,
    now: i64,
    o: ArbitrageOpportunity,
) -> bool {
    match spec_flash_candidate(m1, m2, s, rates) {
        Option::None => false,
        Option::Some(c) => {
            &&& o.source_market == m1.market_address
            &&& o.target_market == m2.market_address
            &&& o.token_pair.base_token == m1.base_token
            &&& o.token_pair.quote_token == m1.quote_token
            &&& o.profit_percentage == c.0
            &&& o.required_amount == c.2
            &&& o.estimated_profit == c.1
            &&& o.route@ == spec_flash_route(m1, m2, c.2)
            &&& o.timestamp == now
        },
    }
}

/// The ordered pair of listed markets at `(a, b)` yields exactly `o`.
pub open spec fn spec_flash_from_pair(
    states: Seq<MarketState>,
    s: Settings,
    rates: Seq<(FlashLoanProtocol, u64)>,
    markets: Seq<u64>,
    now: i64,
    a: int,
    b: int,
    o: ArbitrageOpportunity,
) -> bool {
    &&& 0 <= a < markets.len()
    &&& 0 <= b < markets.len()
    &&& markets[a] != markets[b]
    &&& spec_is_flash_opportunity(
        spec_find_market(states, markets[a])->Some_0,
        spec_find_market(states, markets[b])->Some_0,
        s,
        rates,
        now,
        o,
    )
}

/// The ordered pair at `(a, b)` is distinct, resolvable against the
/// snapshot, and yields a candidate.
pub open spec fn spec_flash_pair_hit(
    states: Seq<MarketState>,
    s: Settings,
    rates: Seq<(FlashLoanProtocol, u64)>,
    markets: Seq<u64>,
    a: int,
    b: int,
) -> bool {
    &&& 0 <= a < markets.len()
    &&& 0 <= b < markets.len()
    &&& markets[a] != markets[b]
    &&& spec_has_market(states, markets[a])
    &&& spec_has_market(states, markets[b])
    &&& spec_flash_candidate(
        spec_find_market(states, markets[a])->Some_0,
        spec_find_market(states, markets[b])->Some_0,
        s,
        rates,
    ) is Some
}

/// The ordered pair at `(a, b)` is distinct but touches a market missing
/// from the snapshot.
pub open spec fn spec_flash_pair_missing(
    states: Seq<MarketState>,
    markets: Seq<u64>,
    a: int,
    b: int,
) -> bool {
    &&& 0 <= a < markets.len()
    &&& 0 <= b < markets.len()
    &&& markets[a] != markets[b]
    &&& (!spec_has_market(states, markets[a]) || !spec_has_market(states, markets[b]))
}

/// Some compared pair of distinct listed markets touches a market
/// missing from the snapshot, so the scan fails.
pub open spec fn spec_flash_scan_blocked(states: Seq<MarketState>, markets: Seq<u64>) -> bool {
    exists|a: int, b: int| spec_flash_pair_missing(states, markets, a, b)
}

/// No entry of `v` carries the source and target of a pair at or after
/// scan position `(i, j)`.
pub open spec fn spec_flash_pairs_before(
    markets: Seq<u64>,
    i: int,
    j: int,
    v: Seq<ArbitrageOpportunity>,
) -> bool {
    forall|k: int, a: int, b: int|
        0 <= k < v.len() && 0 <= a < markets.len() && 0 <= b < markets.len() && (a > i || (a == i
            && b >= j)) ==> !((#[trigger] v[k]).source_market == #[trigger] markets[a]
            && v[k].target_market == #[trigger] markets[b])
}

/// Whether `o` is the opportunity of some ordered pair of listed
/// markets.
pub open spec fn spec_flash_sourced(
    states: Seq<MarketState>,
    s: Settings,
    rates: Seq<(FlashLoanProtocol, u64)>,
    markets: Seq<u64>,
    now: i64,
    o: ArbitrageOpportunity,
) -> bool {
    exists|a: int, b: int| spec_flash_from_pair(states, s, rates, markets, now, a, b, o)
}

/// Whether the pair at `(a, b)` has its opportunity present in `v`.
pub open spec fn spec_flash_represented(
    states: Seq<MarketState>,
    s: Settings,
    rates: Seq<(FlashLoanProtocol, u64)>,
    markets: Seq<u64>,
    now: i64,
    a: int,
    b: int,
    v: Seq<ArbitrageOpportunity>,
) -> bool {
    exists|k: int|
        0 <= k < v.len() && spec_flash_from_pair(states, s, rates, markets, now, a, b, v[k])
}

/// Every entry of `v` is the opportunity of some ordered pair.
pub open spec fn spec_flash_scan_sound(
    states: Seq<MarketState>,
    s: Settings,
    rates: Seq<(FlashLoanProtocol, u64)>,
    markets: Seq<u64>,
    now: i64,
    v: Seq<ArbitrageOpportunity>,
) -> bool {
    forall|k: int|
        0 <= k < v.len() ==> spec_flash_sourced(states, s, rates, markets, now, #[trigger] v[k])
}

/// Every pair processed before position `(i, j)` of the ordered scan
/// whose candidate exists is represented in `v`.
pub open spec fn spec_flash_scan_complete(
    states: Seq<MarketState>,
    s: Settings,
    rates: Seq<(FlashLoanProtocol, u64)>,
    markets: Seq<u64>,
    now: i64,
    i: int,
    j: int,
    v: Seq<ArbitrageOpportunity>,
) -> bool {
    forall|a: int, b: int|
        #[trigger] spec_flash_pair_hit(states, s, rates, markets, a, b) && (a < i || (a == i && b
            < j)) ==> spec_flash_represented(states, s, rates, markets, now, a, b, v)
}

proof fn lemma_flash_sound_push(
    states: Seq<MarketState>,
    s: Settings,
    rates: Seq<(FlashLoanProtocol, u64)>,
    markets: Seq<u64>,
    now: i64,
    v: Seq<ArbitrageOpportunity>,
    o: ArbitrageOpportunity,
    a: int,
    b: int,
)
    requires
        spec_flash_scan_sound(states, s, rates, markets, now, v),
        spec_flash_from_pair(states, s, rates, markets, now, a, b, o),
    ensures
        spec_flash_scan_sound(states, s, rates, markets, now, v.push(o)),
{
    let w = v.push(o);
    assert forall|k: int| 0 <= k < w.len() implies spec_flash_sourced(
        states,
        s,
        rates,
        markets,
        now,
        #[trigger] w[k],
    ) by {
        if k < v.len() {
            assert(w[k] == v[k]);
        } else {
            assert(w[k] == o);
            assert(spec_flash_sourced(states, s, rates, markets, now, o));
        }
    }
}

proof fn lemma_flash_complete_push(
    states: Seq<MarketState>,
    s: Settings,
    rates: Seq<(FlashLoanProtocol, u64)>,
    markets: Seq<u64>,
    now: i64,
    i: int,
    j: int,
    v: Seq<ArbitrageOpportunity>,
    o: ArbitrageOpportunity,
)
    requires
        spec_flash_scan_complete(states, s, rates, markets, now, i, j, v),
        0 <= i < markets.len(),
        0 <= j < markets.len(),
        spec_flash_from_pair(states, s, rates, markets, now, i, j, o),
    ensures
        spec_flash_scan_complete(states, s, rates, markets, now, i, j + 1, v.push(o)),
{
    let w = v.push(o);
    assert forall|a: int, b: int|
        #[trigger] spec_flash_pair_hit(states, s, rates, markets, a, b) && (a < i || (a == i && b
            < j + 1)) implies spec_flash_represented(states, s, rates, markets, now, a, b, w) by {
        if a == i && b == j {
            assert(w[v.len() as int] == o);
        } else {
            assert(spec_flash_represented(states, s, rates, markets, now, a, b, v));
            let k1 = choose|k1: int|
                0 <= k1 < v.len() && spec_flash_from_pair(
                    states,
                    s,
                    rates,
                    markets,
                    now,
                    a,
                    b,
                    v[k1],
                );
            assert(w[k1] == v[k1]);
        }
    }
}

proof fn lemma_flash_complete_skip(
    states: Seq<MarketState>,
    s: Settings,
    rates: Seq<(FlashLoanProtocol, u64)>,
    markets: Seq<u64>,
    now: i64,
    i: int,
    j: int,
    v: Seq<ArbitrageOpportunity>,
)
    requires
        spec_flash_scan_complete(states, s, rates, markets, now, i, j, v),
        !spec_flash_pair_hit(states, s, rates, markets, i, j),
    ensures
        spec_flash_scan_complete(states, s, rates, markets, now, i, j + 1, v),
{
}

proof fn lemma_flash_complete_rollover(
    states: Seq<MarketState>,
    s: Settings,
    rates: Seq<(FlashLoanProtocol, u64)>,
    markets: Seq<u64>,
    now: i64,
    i: int,
    v: Seq<ArbitrageOpportunity>,
)
    requires
        spec_flash_scan_complete(states, s, rates, markets, now, i, markets.len() as int, v),
    ensures
        spec_flash_scan_complete(states, s, rates, markets, now, i + 1, 0, v),
{
    assert forall|a: int, b: int|
        #[trigger] spec_flash_pair_hit(states, s, rates, markets, a, b) && (a < i + 1 || (a == i
            + 1 && b < 0)) implies spec_flash_represented(states, s, rates, markets, now, a, b, v) by {
        assert(a < i || (a == i && b < markets.len()));
    }
}

proof fn lemma_flash_sound_permutation(
    states: Seq<MarketState>,
    s: Settings,
    rates: Seq<(FlashLoanProtocol, u64)>,
    markets: Seq<u64>,
    now: i64,
    a: Seq<ArbitrageOpportunity>,
    b: Seq<ArbitrageOpportunity>,
)
    requires
        spec_flash_scan_sound(states, s, rates, markets, now, a),
        a.to_multiset() == b.to_multiset(),
    ensures
        spec_flash_scan_sound(states, s, rates, markets, now, b),
{
    assert forall|k: int| 0 <= k < b.len() implies spec_flash_sourced(
        states,
        s,
        rates,
        markets,
        now,
        #[trigger] b[k],
    ) by {
        let o = b[k];
        assert(b.contains(o));
        assert(b.to_multiset().count(o) > 0);
        assert(a.to_multiset().count(o) > 0);
        assert(a.contains(o));
        let k1 = choose|k1: int| 0 <= k1 < a.len() && a[k1] == o;
        assert(a[k1] == o);
        assert(spec_flash_sourced(states, s, rates, markets, now, a[k1]));
    }
}

proof fn lemma_flash_complete_permutation(
    states: Seq<MarketState>,
    s: Settings,
    rates: Seq<(FlashLoanProtocol, u64)>,
    markets: Seq<u64>,
    now: i64,
    i: int,
    j: int,
    va: Seq<ArbitrageOpportunity>,
    vb: Seq<ArbitrageOpportunity>,
)
    requires
        spec_flash_scan_complete(states, s, rates, markets, now, i, j, va),
        va.to_multiset() == vb.to_multiset(),
    ensures
        spec_flash_scan_complete(states, s, rates, markets, now, i, j, vb),
{
    assert forall|a: int, b: int|
        #[trigger] spec_flash_pair_hit(states, s, rates, markets, a, b) && (a < i || (a == i && b
            < j)) implies spec_flash_represented(states, s, rates, markets, now, a, b, vb) by {
        assert(spec_flash_represented(states, s, rates, markets, now, a, b, va));
        let k1 = choose|k1: int|
            0 <= k1 < va.len() && spec_flash_from_pair(states, s, rates, markets, now, a, b, va[k1]);
        let o = va[k1];
        assert(va.contains(o));
        assert(va.to_multiset().count(o) > 0);
        assert(vb.to_multiset().count(o) > 0);
        assert(vb.contains(o));
        let k2 = choose|k2: int| 0 <= k2 < vb.len() && vb[k2] == o;
        assert(vb[k2] == o);
    }
}

/// A market with a crossed book yields no borrowed-capital opportunity,
/// on either side of the pair.
pub proof fn lemma_crossed_market_yields_no_flash(
    m1: MarketState,
    m2: MarketState,
    s: Settings,
    rates: Seq<(FlashLoanProtocol, u64)>,
    now: i64,
    o: ArbitrageOpportunity,
)
    requires
        m1.best_bid > m1.best_ask || m2.best_bid > m2.best_ask,
    ensures
        !spec_is_flash_opportunity(m1, m2, s, rates, now, o),
{
}

pub struct FlashLoanStrategy {
    pub settings: Settings,
    pub market_states: Vec<MarketState>,
    /// Per-protocol borrow rates, in parts per million.
    pub protocol_rates: Vec<(FlashLoanProtocol, u64)>,
}

impl FlashLoanStrategy {
    /// A strategy over the validated default configuration, an empty
    /// snapshot, and the known lending protocols' rates.
    pub fn new() -> (r: Self)
        ensures
            r.settings.spec_valid(),
            r.market_states@.len() == 0,
            r.protocol_rates@.len() == 3,
            r.protocol_rates@ == seq![
                (FlashLoanProtocol::Solend, 900u64),
                (FlashLoanProtocol::Port, 1000u64),
                (FlashLoanProtocol::Marinade, 2000u64),
            ],
    {
        let mut protocol_rates: Vec<(FlashLoanProtocol, u64)> = Vec::new();
        protocol_rates.push((FlashLoanProtocol::Solend, 900));
        protocol_rates.push((FlashLoanProtocol::Port, 1000));
        protocol_rates.push((FlashLoanProtocol::Marinade, 2000));
        proof {
            assert(protocol_rates@ =~= seq![
                (FlashLoanProtocol::Solend, 900u64),
                (FlashLoanProtocol::Port, 1000u64),
                (FlashLoanProtocol::Marinade, 2000u64),
            ]);
        }
        FlashLoanStrategy {
            settings: Settings::default(),
            market_states: Vec::new(),
            protocol_rates,
        }
    }

    /// A strategy over the engine's validated settings and snapshot.
    pub fn with_market_data(settings: Settings, market_states: Vec<MarketState>) -> (r: Self)
        requires
            settings.spec_valid(),
        ensures
            r.settings == settings,
            r.market_states@ == market_states@,
            r.protocol_rates@.len() == 3,
            r.protocol_rates@ == seq![
                (FlashLoanProtocol::Solend, 900u64),
                (FlashLoanProtocol::Port, 1000u64),
                (FlashLoanProtocol::Marinade, 2000u64),
            ],
    {
        let mut protocol_rates: Vec<(FlashLoanProtocol, u64)> = Vec::new();
        protocol_rates.push((FlashLoanProtocol::Solend, 900));
        protocol_rates.push((FlashLoanProtocol::Port, 1000));
        protocol_rates.push((FlashLoanProtocol::Marinade, 2000));
        proof {
            assert(protocol_rates@ =~= seq![
                (FlashLoanProtocol::Solend, 900u64),
                (FlashLoanProtocol::Port, 1000u64),
                (FlashLoanProtocol::Marinade, 2000u64),
            ]);
        }
        FlashLoanStrategy { settings, market_states, protocol_rates }
    }

    /// Replace the snapshot this strategy scans.
    pub fn set_market_states(&mut self, market_states: Vec<MarketState>)
        ensures
            final(self).settings == old(self).settings,
            final(self).protocol_rates@ == old(self).protocol_rates@,
            final(self).market_states@ == market_states@,
    {
        self.market_states = market_states;
    }

    pub fn name(&self) -> (r: &'static str)
        ensures
            r@ == "Flash Loan Strategy"@,
    {
        "Flash Loan Strategy"
    }

    fn get_market_state<'a>(&'a self, market: u64) -> (r: Result<&'a MarketState, ArbitrageError>)
        ensures
            r matches Ok(st) ==> spec_find_market(self.market_states@, market) == Some(*st)
                && st.market_address == market,
            r is Err <==> !spec_has_market(self.market_states@, market),
            r is Err ==> (r matches Err(ArbitrageError::MarketError(m)) && m@
                == "Market state not found"@),
    {
        proof {
            lemma_find_market_some(self.market_states@, market);
        }
        match find_market_state(self.market_states.as_slice(), market) {
            Some(st) => Ok(st),
            None => Err(ArbitrageError::MarketError("Market state not found".to_owned())),
        }
    }

    /// Worst-case borrow cost plus the profit floor, in parts per
    /// million: the spread a pair must clear to be worth borrowing for.
    fn get_min_flash_loan_profit_needed(&self) -> (r: Result<i128, ArbitrageError>)
        ensures
            r matches Ok(v) && v == spec_max_rate(self.protocol_rates@)
                + self.settings.trading.execution.min_profit_threshold as int,
    {
        let n: usize = self.protocol_rates.len();
        let mut max_rate: u64 = 0;
        let mut i: usize = 0;
        proof {
            assert(self.protocol_rates@.take(0) =~= Seq::<(FlashLoanProtocol, u64)>::empty());
        }
        while i < n
            invariant
                0 <= i <= n,
                n == self.protocol_rates@.len(),
                max_rate as int == spec_max_rate(self.protocol_rates@.take(i as int)),
            decreases n - i,
        {
            proof {
                assert(self.protocol_rates@.take(i as int + 1).drop_last()
                    =~= self.protocol_rates@.take(i as int));
                assert(self.protocol_rates@.take(i as int + 1).last()
                    == self.protocol_rates@[i as int]);
            }
            if self.protocol_rates[i].1 > max_rate {
                max_rate = self.protocol_rates[i].1;
            }
            i = i + 1;
        }
        proof {
            assert(self.protocol_rates@.take(n as int) =~= self.protocol_rates@);
        }
        Ok(max_rate as i128 + self.settings.trading.execution.min_profit_threshold as i128)
    }

    fn get_flash_loan_limit(&self) -> (r: Result<u64, ArbitrageError>)
        ensures
            r matches Ok(v) && v == FLASH_LOAN_LIMIT,
    {
        Ok(FLASH_LOAN_LIMIT)
    }

    fn are_markets_suitable(&self, market1: &MarketState, market2: &MarketState) -> (r: Result<
        bool,
        ArbitrageError,
    >)
        ensures
            r matches Ok(b) && b == spec_flash_suitable(
                *market1,
                *market2,
                self.settings,
                self.protocol_rates@,
            ),
    {
        let liquidity1: u64 = match market1.get_liquidity() {
            Ok(v) => v,
            Err(e) => {
                return Err(e);
            },
        };
        let liquidity2: u64 = match market2.get_liquidity() {
            Ok(v) => v,
            Err(e) => {
                return Err(e);
            },
        };
        if liquidity1 < self.settings.trading.markets.min_liquidity || liquidity2
            < self.settings.trading.markets.min_liquidity {
            return Ok(false);
        }
        if !market1.is_healthy() || !market2.is_healthy() {
            return Ok(false);
        }
        if market1.best_ask == 0 {
            return Ok(false);
        }
        let price_diff: i64 = crate::dex::ratio_ppm(market2.best_bid, market1.best_ask);
        if price_diff <= 0 {
            return Ok(false);
        }
        let min_profit_needed: i128 = match self.get_min_flash_loan_profit_needed() {
            Ok(v) => v,
            Err(e) => {
                return Err(e);
            },
        };
        if (price_diff as i128) < min_profit_needed {
            return Ok(false);
        }
        Ok(true)
    }

    fn calculate_optimal_size(&self, market1: &MarketState, market2: &MarketState) -> (r: Result<
        u64,
        ArbitrageError,
    >)
        ensures
            r matches Ok(v) && v == spec_flash_size(*market1, *market2, self.settings),
    {
        let liquidity1: u64 = match market1.get_liquidity() {
            Ok(v) => v,
            Err(e) => {
                return Err(e);
            },
        };
        let liquidity2: u64 = match market2.get_liquidity() {
            Ok(v) => v,
            Err(e) => {
                return Err(e);
            },
        };
        let max_size: u64 = min_u64(liquidity1, liquidity2);
        let risk_adjusted_size: u64 = min_u64(
            max_size,
            self.settings.trading.execution.max_position_size,
        );
        let flash_loan_limit: u64 = match self.get_flash_loan_limit() {
            Ok(v) => v,
            Err(e) => {
                return Err(e);
            },
        };
        Ok(min_u64(risk_adjusted_size, flash_loan_limit))
    }

    /// The protocol charging the lowest fee for the amount.
    fn select_best_flash_loan_protocol(&self, amount: u64) -> (r: Result<
        FlashLoanProtocol,
        ArbitrageError,
    >)
        ensures
            r matches Ok(p) ==> spec_best_protocol(self.protocol_rates@, amount) matches Some(b)
                && b.0 == p,
            r is Err <==> self.protocol_rates@.len() == 0,
            r matches Err(ArbitrageError::FlashLoanError(m)) ==> m@
                == "No suitable flash loan protocol found"@,
    {
        let n: usize = self.protocol_rates.len();
        let mut best: Option<(FlashLoanProtocol, i128)> = None;
        let mut i: usize = 0;
        proof {
            assert(self.protocol_rates@.take(0) =~= Seq::<(FlashLoanProtocol, u64)>::empty());
            lemma_best_protocol_some(self.protocol_rates@, amount);
        }
        while i < n
            invariant
                0 <= i <= n,
                n == self.protocol_rates@.len(),
                (match best {
                    Option::None => spec_best_protocol(
                        self.protocol_rates@.take(i as int),
                        amount,
                    ) is None,
                    Option::Some(b) => spec_best_protocol(self.protocol_rates@.take(i as int), amount)
                        matches Some(sb) && sb.0 == b.0 && sb.1 == b.1 as int,
                }),
            decreases n - i,
        {
            proof {
                assert(self.protocol_rates@.take(i as int + 1).drop_last()
                    =~= self.protocol_rates@.take(i as int));
                assert(self.protocol_rates@.take(i as int + 1).last()
                    == self.protocol_rates@[i as int]);
            }
            let fee: i128 = mul_div_wide(amount, self.protocol_rates[i].1, RATE_SCALE);
            let replace: bool = match best {
                None => true,
                Some((_, lowest)) => fee < lowest,
            };
            if replace {
                best = Some((self.protocol_rates[i].0, fee));
            }
            i = i + 1;
        }
        proof {
            assert(self.protocol_rates@.take(n as int) =~= self.protocol_rates@);
        }
        match best {
            Some((protocol, _)) => Ok(protocol),
            None => Err(
                ArbitrageError::FlashLoanError("No suitable flash loan protocol found".to_owned()),
            ),
        }
    }

    /// The borrow fee of the cheapest protocol, in micro quote-units.
    fn calculate_flash_loan_fees(&self, amount: u64) -> (r: Result<i128, ArbitrageError>)
        ensures
            r matches Ok(v) ==> spec_best_protocol(self.protocol_rates@, amount) matches Some(b)
                && v == b.1,
            r is Err <==> self.protocol_rates@.len() == 0,
            r matches Err(ArbitrageError::FlashLoanError(m)) ==> m@
                == "No suitable flash loan protocol found"@,
    {
        let n: usize = self.protocol_rates.len();
        let mut best: Option<i128> = None;
        let mut i: usize = 0;
        proof {
            assert(self.protocol_rates@.take(0) =~= Seq::<(FlashLoanProtocol, u64)>::empty());
            lemma_best_protocol_some(self.protocol_rates@, amount);
        }
        while i < n
            invariant
                0 <= i <= n,
                n == self.protocol_rates@.len(),
                (match best {
                    Option::None => spec_best_protocol(
                        self.protocol_rates@.take(i as int),
                        amount,
                    ) is None,
                    Option::Some(f) => spec_best_protocol(self.protocol_rates@.take(i as int), amount)
                        matches Some(sb) && sb.1 == f as int,
                }),
            decreases n - i,
        {
            proof {
                assert(self.protocol_rates@.take(i as int + 1).drop_last()
                    =~= self.protocol_rates@.take(i as int));
                assert(self.protocol_rates@.take(i as int + 1).last()
                    == self.protocol_rates@[i as int]);
            }
            let fee: i128 = mul_div_wide(amount, self.protocol_rates[i].1, RATE_SCALE);
            let replace: bool = match best {
                None => true,
                Some(lowest) => fee < lowest,
            };
            if replace {
                best = Some(fee);
            }
            i = i + 1;
        }
        proof {
            assert(self.protocol_rates@.take(n as int) =~= self.protocol_rates@);
        }
        match best {
            Some(fee) => Ok(fee),
            None => Err(
                ArbitrageError::FlashLoanError("No suitable flash loan protocol found".to_owned()),
            ),
        }
    }

    /// Trading fees of the two legs, in micro quote-units.
    fn calculate_trading_fees(&self, amount: u64, market1: &MarketState, market2: &MarketState) -> (r:
        Result<i128, ArbitrageError>)
        ensures
            r matches Ok(v) && v == (amount as int * market1.best_ask as int / PRICE_SCALE as int)
                * TRADING_FEE_PPM as int / RATE_SCALE as int + (amount as int
                * market2.best_bid as int / PRICE_SCALE as int) * TRADING_FEE_PPM as int
                / RATE_SCALE as int,
    {
        let value1: i128 = mul_div_wide(amount, market1.best_ask, PRICE_SCALE);
        let value2: i128 = mul_div_wide(amount, market2.best_bid, PRICE_SCALE);
        proof {
            lemma_bound_from_scaled(
                value1 as int,
                PRICE_SCALE as int,
                u64::MAX as int * u64::MAX as int,
            );
            lemma_bound_from_scaled(
                value2 as int,
                PRICE_SCALE as int,
                u64::MAX as int * u64::MAX as int,
            );
            assert(u64::MAX as int * u64::MAX as int / PRICE_SCALE as int
                <= 340282366920938463426481119284350int);
        }
        let fee1: i128 = rate_of_wide(value1, TRADING_FEE_PPM);
        let fee2: i128 = rate_of_wide(value2, TRADING_FEE_PPM);
        Ok(fee1 + fee2)
    }

    /// Profit percentage (ppm) and estimated profit of the borrowed
    /// round trip. A loss-making or unpriceable pair reports a
    /// percentage below any positive floor.
    fn calculate_flash_loan_profit(
        &self,
        market1: &MarketState,
        market2: &MarketState,
        trade_size: u64,
    ) -> (r: Result<(i64, u64), ArbitrageError>)
        requires
            self.settings.spec_valid(),
            self.protocol_rates@.len() > 0,
        ensures
            r matches Ok(pr) ==> {
                let net = spec_flash_net_and_entry(
                    *market1,
                    *market2,
                    trade_size as int,
                    self.protocol_rates@,
                ).0;
                let entry = spec_flash_net_and_entry(
                    *market1,
                    *market2,
                    trade_size as int,
                    self.protocol_rates@,
                ).1;
                &&& (net >= 0 && entry >= 1) ==> (pr.0 as int == int_min(
                    net * RATE_SCALE as int / entry,
                    i64::MAX as int,
                ) && pr.1 == sat_u64(net))
                &&& (net < 0 || entry < 1) ==> (pr.0 == -1 && pr.1 == 0)
            },
            r is Ok,
    {
        let entry_amount: i128 = mul_div_wide(trade_size, market1.best_ask, PRICE_SCALE);
        let exit_amount: i128 = mul_div_wide(trade_size, market2.best_bid, PRICE_SCALE);
        let flash_loan_fees: i128 = match self.calculate_flash_loan_fees(trade_size) {
            Ok(v) => v,
            Err(e) => {
                proof {
                    lemma_best_protocol_some(self.protocol_rates@, trade_size);
                }
                return Err(e);
            },
        };
        let trading_fees: i128 = match self.calculate_trading_fees(trade_size, market1, market2) {
            Ok(v) => v,
            Err(e) => {
                return Err(e);
            },
        };
        proof {
            lemma_flash_fee_bound(self.protocol_rates@, trade_size);
            lemma_bound_from_scaled(
                entry_amount as int,
                PRICE_SCALE as int,
                u64::MAX as int * u64::MAX as int,
            );
            lemma_bound_from_scaled(
                exit_amount as int,
                PRICE_SCALE as int,
                u64::MAX as int * u64::MAX as int,
            );
        }
        let gross_profit: i128 = exit_amount - entry_amount;
        let net_profit: i128 = gross_profit - flash_loan_fees - trading_fees;
        if net_profit < 0 {
            return Ok((-1, 0));
        }
        if entry_amount < 1 {
            return Ok((-1, 0));
        }
        let profit_percentage: i64 = scaled_ratio_i64(net_profit, entry_amount, RATE_SCALE);
        let estimated: u64 = if net_profit > u64::MAX as i128 {
            u64::MAX
        } else {
            net_profit as u64
        };
        Ok((profit_percentage, estimated))
    }

    fn create_flash_loan_step(&self, amount: u64) -> (r: Result<TradeStep, ArbitrageError>)
        requires
            self.protocol_rates@.len() > 0,
        ensures
            r matches Ok(st) && st == (TradeStep {
                market: 0u64,
                side: TradeSide::Buy,
                amount,
                price: 0u64,
            }),
    {
        let _protocol = match self.select_best_flash_loan_protocol(amount) {
            Ok(p) => p,
            Err(e) => {
                proof {
                    lemma_best_protocol_some(self.protocol_rates@, amount);
                }
                return Err(e);
            },
        };
        Ok(TradeStep { market: 0, side: TradeSide::Buy, amount, price: 0 })
    }

    fn create_repayment_step(&self, amount: u64) -> (r: Result<TradeStep, ArbitrageError>)
        ensures
            r matches Ok(st) && st == (TradeStep {
                market: 0u64,
                side: TradeSide::Sell,
                amount,
                price: 0u64,
            }),
    {
        Ok(TradeStep { market: 0, side: TradeSide::Sell, amount, price: 0 })
    }

    /// The borrow / buy / sell / repay route for the pair: the borrow
    /// leg strictly first, the repay leg strictly last, the two trade
    /// legs between them (see the route-ordering lemma).
    pub fn create_flash_loan_route(
        &self,
        market1: &MarketState,
        market2: &MarketState,
        trade_size: u64,
    ) -> (r: Result<Vec<TradeStep>, ArbitrageError>)
        requires
            self.protocol_rates@.len() > 0,
        ensures
            r matches Ok(v) && v@ == spec_flash_route(*market1, *market2, trade_size),
    {
        let mut route: Vec<TradeStep> = Vec::new();
        let borrow_step: TradeStep = match self.create_flash_loan_step(trade_size) {
            Ok(st) => st,
            Err(e) => {
                return Err(e);
            },
        };
        route.push(borrow_step);
        route.push(
            TradeStep {
                market: market1.market_address,
                side: TradeSide::Buy,
                amount: trade_size,
                price: market1.best_ask,
            },
        );
        route.push(
            TradeStep {
                market: market2.market_address,
                side: TradeSide::Sell,
                amount: trade_size,
                price: market2.best_bid,
            },
        );
        let repay_step: TradeStep = match self.create_repayment_step(trade_size) {
            Ok(st) => st,
            Err(e) => {
                return Err(e);
            },
        };
        route.push(repay_step);
        proof {
            assert(route@ =~= spec_flash_route(*market1, *market2, trade_size));
        }
        Ok(route)
    }

    /// The opportunity one ordered market pair yields; fails only when a
    /// market is missing from the snapshot.
    #[verifier::rlimit(30)]
    fn analyze_flash_loan_opportunity(&self, market1: u64, market2: u64, now: i64) -> (r: Result<
        Option<ArbitrageOpportunity>,
        ArbitrageError,
    >)
        requires
            self.settings.spec_valid(),
            self.protocol_rates@.len() > 0,
        ensures
            !spec_has_market(self.market_states@, market1) ==> (r matches Err(
                ArbitrageError::MarketError(m),
            ) && m@ == "Market state not found"@),
            spec_has_market(self.market_states@, market1) && !spec_has_market(
                self.market_states@,
                market2,
            ) ==> (r matches Err(ArbitrageError::MarketError(m)) && m@
                == "Market state not found"@),
            spec_has_market(self.market_states@, market1) && spec_has_market(
                self.market_states@,
                market2,
            ) ==> (r matches Ok(o) && (match o {
                Option::None => spec_flash_candidate(
                    spec_find_market(self.market_states@, market1)->Some_0,
                    spec_find_market(self.market_states@, market2)->Some_0,
                    self.settings,
                    self.protocol_rates@,
                ) is None,
                Option::Some(opp) => spec_is_flash_opportunity(
                    spec_find_market(self.market_states@, market1)->Some_0,
                    spec_find_market(self.market_states@, market2)->Some_0,
                    self.settings,
                    self.protocol_rates@,
                    now,
                    opp,
                ),
            })),
    {
        let market1_state: &MarketState = match self.get_market_state(market1) {
            Ok(st) => st,
            Err(e) => {
                return Err(e);
            },
        };
        let market2_state: &MarketState = match self.get_market_state(market2) {
            Ok(st) => st,
            Err(e) => {
                return Err(e);
            },
        };
        let suitable: bool = match self.are_markets_suitable(market1_state, market2_state) {
            Ok(b) => b,
            Err(e) => {
                return Err(e);
            },
        };
        if !suitable {
            return Ok(None);
        }
        let trade_size: u64 = match self.calculate_optimal_size(market1_state, market2_state) {
            Ok(v) => v,
            Err(e) => {
                return Err(e);
            },
        };
        let (profit_percentage, estimated_profit) = match self.calculate_flash_loan_profit(
            market1_state,
            market2_state,
            trade_size,
        ) {
            Ok(pr) => pr,
            Err(e) => {
                return Err(e);
            },
        };
        if profit_percentage < self.settings.trading.execution.min_profit_threshold {
            return Ok(None);
        }
        let route: Vec<TradeStep> = match self.create_flash_loan_route(
            market1_state,
            market2_state,
            trade_size,
        ) {
            Ok(v) => v,
            Err(e) => {
                return Err(e);
            },
        };
        let token_pair: TokenPair = market1_state.token_pair();
        Ok(
            Some(
                ArbitrageOpportunity {
                    source_market: market1,
                    target_market: market2,
                    token_pair,
                    profit_percentage,
                    required_amount: trade_size,
                    estimated_profit,
                    route,
                    timestamp: now,
                },
            ),
        )
    }

    /// Scan every ordered pair of distinct listed markets; the result is
    /// sorted by descending profit percentage. Fails exactly when some
    /// compared pair touches a market missing from the snapshot.
    #[verifier::rlimit(100)]
    #[verifier::spinoff_prover]
    fn find_flash_loan_opportunities(&self, markets: &[u64], now: i64) -> (r: Result<
        Vec<ArbitrageOpportunity>,
        ArbitrageError,
    >)
        requires
            self.settings.spec_valid(),
            self.protocol_rates@.len() > 0,
        ensures
            r is Err <==> spec_flash_scan_blocked(self.market_states@, markets@),
            r matches Ok(v) ==> {
                &&& crate::strategies::spec_sorted_desc(v@)
                &&& spec_flash_scan_sound(
                    self.market_states@,
                    self.settings,
                    self.protocol_rates@,
                    markets@,
                    now,
                    v@,
                )
                &&& spec_flash_scan_complete(
                    self.market_states@,
                    self.settings,
                    self.protocol_rates@,
                    markets@,
                    now,
                    markets@.len() as int,
                    0,
                    v@,
                )
                &&& (crate::strategies::spec_distinct_ids(markets@) ==> v@.no_duplicates())
            },
    {
        let n: usize = markets.len();
        let mut opportunities: Vec<ArbitrageOpportunity> = Vec::new();
        let mut i: usize = 0;
        while i < n
            invariant
                0 <= i <= n,
                n == markets@.len(),
                self.settings.spec_valid(),
                self.protocol_rates@.len() > 0,
                forall|a: int, b: int|
                    #[trigger] spec_flash_pair_missing(self.market_states@, markets@, a, b)
                        ==> a >= i,
                spec_flash_scan_sound(
                    self.market_states@,
                    self.settings,
                    self.protocol_rates@,
                    markets@,
                    now,
                    opportunities@,
                ),
                spec_flash_scan_complete(
                    self.market_states@,
                    self.settings,
                    self.protocol_rates@,
                    markets@,
                    now,
                    i as int,
                    0,
                    opportunities@,
                ),
                crate::strategies::spec_distinct_ids(markets@)
                    ==> opportunities@.no_duplicates(),
                crate::strategies::spec_distinct_ids(markets@) ==> spec_flash_pairs_before(
                    markets@,
                    i as int,
                    0,
                    opportunities@,
                ),
            decreases n - i,
        {
            let mut j: usize = 0;
            while j < n
                invariant
                    0 <= i < n,
                    0 <= j <= n,
                    n == markets@.len(),
                    self.settings.spec_valid(),
                    self.protocol_rates@.len() > 0,
                    forall|a: int, b: int|
                        #[trigger] spec_flash_pair_missing(self.market_states@, markets@, a, b)
                            ==> (a > i || (a == i && b >= j)),
                    spec_flash_scan_sound(
                        self.market_states@,
                        self.settings,
                        self.protocol_rates@,
                        markets@,
                        now,
                        opportunities@,
                    ),
                    spec_flash_scan_complete(
                        self.market_states@,
                        self.settings,
                        self.protocol_rates@,
                        markets@,
                        now,
                        i as int,
                        j as int,
                        opportunities@,
                    ),
                    crate::strategies::spec_distinct_ids(markets@)
                        ==> opportunities@.no_duplicates(),
                    crate::strategies::spec_distinct_ids(markets@) ==> spec_flash_pairs_before(
                        markets@,
                        i as int,
                        j as int,
                        opportunities@,
                    ),
                decreases n - j,
            {
                let pre = Ghost(opportunities@);
                if markets[i] != markets[j] {
                    match self.analyze_flash_loan_opportunity(markets[i], markets[j], now) {
                        Ok(Some(opp)) => {
                            opportunities.push(opp);
                            proof {
                                assert(spec_flash_from_pair(
                                    self.market_states@,
                                    self.settings,
                                    self.protocol_rates@,
                                    markets@,
                                    now,
                                    i as int,
                                    j as int,
                                    opp,
                                ));
                                lemma_flash_sound_push(
                                    self.market_states@,
                                    self.settings,
                                    self.protocol_rates@,
                                    markets@,
                                    now,
                                    pre@,
                                    opp,
                                    i as int,
                                    j as int,
                                );
                                lemma_flash_complete_push(
                                    self.market_states@,
                                    self.settings,
                                    self.protocol_rates@,
                                    markets@,
                                    now,
                                    i as int,
                                    j as int,
                                    pre@,
                                    opp,
                                );
                                assert(opportunities@ == pre@.push(opp));
                                if crate::strategies::spec_distinct_ids(markets@) {
                                    lemma_find_market_some(
                                        self.market_states@,
                                        markets@[i as int],
                                    );
                                    lemma_find_market_some(
                                        self.market_states@,
                                        markets@[j as int],
                                    );
                                    assert(opp.source_market == markets@[i as int]);
                                    assert(opp.target_market == markets@[j as int]);
                                    assert forall|a: int, b: int|
                                        0 <= a < opportunities@.len() && 0 <= b
                                            < opportunities@.len() && a != b
                                        implies opportunities@[a] != opportunities@[b] by {
                                        let k1 = if a < b {
                                            a
                                        } else {
                                            b
                                        };
                                        let k2 = if a < b {
                                            b
                                        } else {
                                            a
                                        };
                                        assert(opportunities@[k1] == pre@[k1]);
                                        if k2 < pre@.len() {
                                            assert(opportunities@[k2] == pre@[k2]);
                                        } else {
                                            assert(opportunities@[k2] == opp);
                                            assert(!(pre@[k1].source_market == markets@[i as int]
                                                && pre@[k1].target_market
                                                == markets@[j as int]));
                                        }
                                    }
                                    assert forall|k: int, a: int, b: int|
                                        0 <= k < opportunities@.len() && 0 <= a < markets@.len()
                                            && 0 <= b < markets@.len() && (a > i as int || (a
                                            == i as int && b >= j as int + 1))
                                        implies !((#[trigger] opportunities@[k]).source_market
                                            == #[trigger] markets@[a]
                                            && opportunities@[k].target_market
                                            == #[trigger] markets@[b]) by {
                                        if k < pre@.len() {
                                            assert(opportunities@[k] == pre@[k]);
                                        } else {
                                            assert(opportunities@[k] == opp);
                                        }
                                    }
                                }
                            }
                        },
                        Ok(None) => {
                            proof {
                                lemma_flash_complete_skip(
                                    self.market_states@,
                                    self.settings,
                                    self.protocol_rates@,
                                    markets@,
                                    now,
                                    i as int,
                                    j as int,
                                    pre@,
                                );
                            }
                        },
                        Err(e) => {
                            proof {
                                assert(spec_flash_pair_missing(
                                    self.market_states@,
                                    markets@,
                                    i as int,
                                    j as int,
                                ));
                                assert(spec_flash_scan_blocked(self.market_states@, markets@));
                            }
                            return Err(e);
                        },
                    }
                } else {
                    proof {
                        assert(!spec_flash_pair_missing(
                            self.market_states@,
                            markets@,
                            i as int,
                            j as int,
                        ));
                        lemma_flash_complete_skip(
                            self.market_states@,
                            self.settings,
                            self.protocol_rates@,
                            markets@,
                            now,
                            i as int,
                            j as int,
                            pre@,
                        );
                    }
                }
                j = j + 1;
            }
            proof {
                lemma_flash_complete_rollover(
                    self.market_states@,
                    self.settings,
                    self.protocol_rates@,
                    markets@,
                    now,
                    i as int,
                    opportunities@,
                );
            }
            i = i + 1;
        }
        let unsorted = Ghost(opportunities@);
        crate::strategies::sort_opportunities_by_profit(&mut opportunities);
        proof {
            lemma_flash_sound_permutation(
                self.market_states@,
                self.settings,
                self.protocol_rates@,
                markets@,
                now,
                unsorted@,
                opportunities@,
            );
            lemma_flash_complete_permutation(
                self.market_states@,
                self.settings,
                self.protocol_rates@,
                markets@,
                now,
                n as int,
                0,
                unsorted@,
                opportunities@,
            );
            if crate::strategies::spec_distinct_ids(markets@) {
                crate::strategies::lemma_no_duplicates_permutation(unsorted@, opportunities@);
            }
            assert(!spec_flash_scan_blocked(self.market_states@, markets@)) by {
                if spec_flash_scan_blocked(self.market_states@, markets@) {
                    let (a, b) = choose|a: int, b: int|
                        spec_flash_pair_missing(self.market_states@, markets@, a, b);
                    assert(a >= n);
                    assert(a < n);
                }
            }
        }
        Ok(opportunities)
    }

    /// The strategy's analysis entry point: scan every ordered pair of
    /// distinct listed markets and rank the candidates.
    pub fn analyze(&self, markets: &[u64], now: i64) -> (r: Result<
        Vec<ArbitrageOpportunity>,
        ArbitrageError,
    >)
        requires
            self.settings.spec_valid(),
            self.protocol_rates@.len() > 0,
        ensures
            r is Err <==> spec_flash_scan_blocked(self.market_states@, markets@),
            r matches Ok(v) ==> {
                &&& crate::strategies::spec_sorted_desc(v@)
                &&& spec_flash_scan_sound(
                    self.market_states@,
                    self.settings,
                    self.protocol_rates@,
                    markets@,
                    now,
                    v@,
                )
                &&& spec_flash_scan_complete(
                    self.market_states@,
                    self.settings,
                    self.protocol_rates@,
                    markets@,
                    now,
                    markets@.len() as int,
                    0,
                    v@,
                )
                &&& (crate::strategies::spec_distinct_ids(markets@) ==> v@.no_duplicates())
            },
    {
        self.find_flash_loan_opportunities(markets, now)
    }

    /// Re-validation gate: stale opportunities always fail; fresh ones
    /// are rechecked against the current market conditions.
    pub fn validate(&self, opportunity: &ArbitrageOpportunity, now: i64) -> (r: Result<
        bool,
        ArbitrageError,
    >)
        requires
            opportunity.timestamp >= 0,
            now >= 0,
        ensures
            now - opportunity.timestamp > FLASH_FRESHNESS_SECS ==> (r matches Ok(b) && !b),
            now - opportunity.timestamp <= FLASH_FRESHNESS_SECS ==> {
                &&& (!spec_has_market(self.market_states@, opportunity.source_market)
                    || !spec_has_market(self.market_states@, opportunity.target_market)) <==> r
                    is Err
                &&& (r matches Ok(b) ==> b == spec_flash_suitable(
                    spec_find_market(self.market_states@, opportunity.source_market)->Some_0,
                    spec_find_market(self.market_states@, opportunity.target_market)->Some_0,
                    self.settings,
                    self.protocol_rates@,
                ))
            },
    {
        if now - opportunity.timestamp > FLASH_FRESHNESS_SECS {
            return Ok(false);
        }
        let market1_state: &MarketState = match self.get_market_state(opportunity.source_market) {
            Ok(st) => st,
            Err(e) => {
                return Err(e);
            },
        };
        let market2_state: &MarketState = match self.get_market_state(opportunity.target_market) {
            Ok(st) => st,
            Err(e) => {
                return Err(e);
            },
        };
        self.are_markets_suitable(market1_state, market2_state)
    }
}

/// The cheapest protocol's fee is bounded by the amount itself scaled
/// down, keeping the profit arithmetic in range.
proof fn lemma_flash_fee_bound(rates: Seq<(FlashLoanProtocol, u64)>, amount: u64)
    requires
        rates.len() > 0,
    ensures
        spec_best_protocol(rates, amount) matches Some(b) ==> 0 <= b.1 <= u64::MAX as int
            * u64::MAX as int / RATE_SCALE as int,
    decreases rates.len(),
{
    let last_fee = amount as int * rates.last().1 as int / RATE_SCALE as int;
    assert(0 <= last_fee <= u64::MAX as int * u64::MAX as int / RATE_SCALE as int) by {
        vstd::arithmetic::mul::lemma_mul_nonnegative(amount as int, rates.last().1 as int);
        vstd::arithmetic::div_mod::lemma_div_pos_is_pos(
            amount as int * rates.last().1 as int,
            RATE_SCALE as int,
        );
        vstd::arithmetic::mul::lemma_mul_upper_bound(
            amount as int,
            u64::MAX as int,
            rates.last().1 as int,
            u64::MAX as int,
        );
        vstd::arithmetic::div_mod::lemma_div_is_ordered(
            amount as int * rates.last().1 as int,
            u64::MAX as int * u64::MAX as int,
            RATE_SCALE as int,
        );
    }
    if rates.len() > 1 {
        lemma_flash_fee_bound(rates.drop_last(), amount);
        let prev = spec_best_protocol(rates.drop_last(), amount);
        if prev is None || last_fee < prev->Some_0.1 {
            assert(spec_best_protocol(rates, amount)->Some_0.1 == last_fee);
        } else {
            assert(spec_best_protocol(rates, amount) == prev);
        }
    } else {
        assert(rates.drop_last().len() == 0);
        assert(spec_best_protocol(rates, amount)->Some_0.1 == last_fee);
    }
}

} // verus!
