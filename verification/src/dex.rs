//! Venue registry: selects the best-priced execution venue with
//! sufficient depth, and detects cross-venue spread opportunities.
//!
//! The registry holds the latest quote each venue adapter reported for a
//! token pair; the wire adapters that produce the quotes live outside the
//! core and feed this table between cycles.

use vstd::prelude::*;
use crate::math::int_min;
use crate::types::{ArbitrageError, TokenPair, RATE_SCALE};

verus! {

/// The five trading venues the registry knows.
#[derive(Debug, Clone, Copy, PartialEq, Eq, Structural)]
pub enum DexVenue {
    Serum,
    Orca,
    Raydium,
    Jupiter,
    Openbook,
}

/// A market as one venue lists it.
#[derive(Debug, Clone, Copy, PartialEq, Eq, Structural)]
pub struct MarketInfo {
    pub address: u64,
    pub venue: DexVenue,
}

#[derive(Debug, Clone, Copy, PartialEq, Eq, Structural)]
pub enum TradeDirection {
    Market1ToMarket2,
    Market2ToMarket1,
}

/// A directed cross-venue spread that cleared the profit threshold.
#[derive(Debug, Clone, Copy, PartialEq, Eq, Structural)]
pub struct CrossDexOpportunity {
    pub source_market: MarketInfo,
    pub target_market: MarketInfo,
    /// Larger of the two directional spreads, in parts per million.
    pub profit_percentage: i64,
    pub direction: TradeDirection,
}

/// The quote a venue adapter last reported for a token pair.
#[derive(Debug, Clone, Copy, PartialEq, Eq, Structural)]
pub struct VenueQuote {
    pub venue: DexVenue,
    /// Market address id on that venue.
    pub market: u64,
    pub base_token: u64,
    pub quote_token: u64,
    /// Best bid in micro quote-units per base unit.
    pub bid: u64,
    /// Best ask in micro quote-units per base unit.
    pub ask: u64,
    /// Available depth in base smallest units.
    pub liquidity: u64,
}

/// Whether two quotes occupy the same registry slot: same venue, same
/// market.
pub open spec fn spec_same_slot(a: VenueQuote, b: VenueQuote) -> bool {
    a.venue == b.venue && a.market == b.market
}

/// Whether a quote belongs to the pair and has depth for the amount.
pub open spec fn spec_quote_qualifies(q: VenueQuote, pair: TokenPair, amount: u64) -> bool {
    &&& q.base_token == pair.base_token.address
    &&& q.quote_token == pair.quote_token.address
    &&& q.liquidity >= amount
}

/// Side-dependent price of a quote: ask for a buy, bid for a sell.
pub open spec fn spec_quote_price(q: VenueQuote, is_buy: bool) -> u64 {
    if is_buy {
        q.ask
    } else {
        q.bid
    }
}

/// Strict improvement: a buy wants a lower price, a sell a higher one.
pub open spec fn spec_better_price(new: u64, cur: u64, is_buy: bool) -> bool {
    if is_buy {
        new < cur
    } else {
        new > cur
    }
}

/// The venue selection the registry performs: first quote wins ties,
/// later quotes replace only on strict improvement.
pub open spec fn spec_best_venue(
    quotes: Seq<VenueQuote>,
    pair: TokenPair,
    amount: u64,
    is_buy: bool,
) -> Option<(DexVenue, u64)>
    decreases quotes.len(),
{
    if quotes.len() == 0 {
        None
    } else {
        let prev = spec_best_venue(quotes.drop_last(), pair, amount, is_buy);
        let q = quotes.last();
        if spec_quote_qualifies(q, pair, amount) && (prev is None || spec_better_price(
            spec_quote_price(q, is_buy),
            prev->Some_0.1,
            is_buy,
        )) {
            Some((q.venue, spec_quote_price(q, is_buy)))
        } else {
            prev
        }
    }
}

/// The selected price is attainable and no qualifying quote beats it.
pub proof fn lemma_best_venue_optimal(
    quotes: Seq<VenueQuote>,
    pair: TokenPair,
    amount: u64,
    is_buy: bool,
)
    ensures
        spec_best_venue(quotes, pair, amount, is_buy) is Some <==> exists|i: int|
            0 <= i < quotes.len() && spec_quote_qualifies(#[trigger] quotes[i], pair, amount),
        spec_best_venue(quotes, pair, amount, is_buy) matches Some(best) ==> (exists|i: int|
            0 <= i < quotes.len() && spec_quote_qualifies(#[trigger] quotes[i], pair, amount)
                && quotes[i].venue == best.0 && spec_quote_price(quotes[i], is_buy) == best.1)
            && (forall|i: int|
            0 <= i < quotes.len() && spec_quote_qualifies(#[trigger] quotes[i], pair, amount)
                ==> !spec_better_price(spec_quote_price(quotes[i], is_buy), best.1, is_buy)),
    decreases quotes.len(),
{
    if quotes.len() > 0 {
        lemma_best_venue_optimal(quotes.drop_last(), pair, amount, is_buy);
        assert forall|i: int|
            0 <= i < quotes.len() - 1 && spec_quote_qualifies(
                #[trigger] quotes[i],
                pair,
                amount,
            ) implies spec_quote_qualifies(quotes.drop_last()[i], pair, amount) by {
            assert(quotes.drop_last()[i] == quotes[i]);
        }
    }
}

/// A directional spread in parts per million: `num / den - 1`, saturated
/// so that it fits a signed 64-bit value.
pub open spec fn spec_ratio_ppm(num: u64, den: u64) -> int {
    int_min(num as int * RATE_SCALE as int / den as int, i64::MAX as int) - RATE_SCALE as int
}

/// Larger of the two directional spreads between two venue quotes, and
/// the direction that attains it (buy on the source, sell on the target).
pub open spec fn spec_cross_profit(q1: VenueQuote, q2: VenueQuote) -> (int, TradeDirection) {
    let p1 = spec_ratio_ppm(q2.bid, q1.ask);
    let p2 = spec_ratio_ppm(q1.bid, q2.ask);
    if p1 > p2 {
        (p1, TradeDirection::Market1ToMarket2)
    } else {
        (p2, TradeDirection::Market2ToMarket1)
    }
}

/// A quote enters cross-venue detection only for the right pair, with an
/// uncrossed book (bid above ask is invalid data) and a positive ask.
pub open spec fn spec_quote_detectable(q: VenueQuote, pair: TokenPair) -> bool {
    &&& q.base_token == pair.base_token.address
    &&& q.quote_token == pair.quote_token.address
    &&& q.bid <= q.ask
    &&& q.ask > 0
}

/// An index pair whose spread clears the threshold.
pub open spec fn spec_pair_detectable(
    quotes: Seq<VenueQuote>,
    pair: TokenPair,
    min_profit: i64,
    i: int,
    j: int,
) -> bool {
    &&& 0 <= i < j < quotes.len()
    &&& spec_quote_detectable(quotes[i], pair)
    &&& spec_quote_detectable(quotes[j], pair)
    &&& spec_cross_profit(quotes[i], quotes[j]).0 >= min_profit as int
}

/// The entry the registry reports for the index pair `(i, j)`.
pub open spec fn spec_cross_entry(quotes: Seq<VenueQuote>, i: int, j: int) -> CrossDexOpportunity {
    CrossDexOpportunity {
        source_market: MarketInfo { address: quotes[i].market, venue: quotes[i].venue },
        target_market: MarketInfo { address: quotes[j].market, venue: quotes[j].venue },
        profit_percentage: spec_cross_profit(quotes[i], quotes[j]).0 as i64,
        direction: spec_cross_profit(quotes[i], quotes[j]).1,
    }
}

/// Entries contributed by pairs `(i, j), (i, j+1), ...` for a fixed `i`.
pub open spec fn spec_cross_row(
    quotes: Seq<VenueQuote>,
    pair: TokenPair,
    min_profit: i64,
    i: int,
    j: int,
) -> Seq<CrossDexOpportunity>
    decreases quotes.len() - j,
{
    if j < 0 || j >= quotes.len() {
        Seq::empty()
    } else {
        let rest = spec_cross_row(quotes, pair, min_profit, i, j + 1);
        if spec_pair_detectable(quotes, pair, min_profit, i, j) {
            seq![spec_cross_entry(quotes, i, j)] + rest
        } else {
            rest
        }
    }
}

/// The full cross-venue report, scanning index pairs in order.
pub open spec fn spec_cross_list(
    quotes: Seq<VenueQuote>,
    pair: TokenPair,
    min_profit: i64,
    i: int,
) -> Seq<CrossDexOpportunity>
    decreases quotes.len() - i,
{
    if i < 0 || i >= quotes.len() {
        Seq::empty()
    } else {
        spec_cross_row(quotes, pair, min_profit, i, i + 1) + spec_cross_list(
            quotes,
            pair,
            min_profit,
            i + 1,
        )
    }
}

/// Every reported entry comes from a detectable index pair — in
/// particular, a market with a crossed book (bid above ask) never enters
/// a cross-venue opportunity.
pub proof fn lemma_cross_row_sound(
    quotes: Seq<VenueQuote>,
    pair: TokenPair,
    min_profit: i64,
    i: int,
    j: int,
)
    ensures
        forall|k: int|
            0 <= k < spec_cross_row(quotes, pair, min_profit, i, j).len() ==> exists|b: int|
                j <= b && #[trigger] spec_cross_row(quotes, pair, min_profit, i, j)[k]
                    == spec_cross_entry(quotes, i, b) && spec_pair_detectable(
                    quotes,
                    pair,
                    min_profit,
                    i,
                    b,
                ),
    decreases quotes.len() - j,
{
    if 0 <= j < quotes.len() {
        lemma_cross_row_sound(quotes, pair, min_profit, i, j + 1);
        let row = spec_cross_row(quotes, pair, min_profit, i, j);
        let rest = spec_cross_row(quotes, pair, min_profit, i, j + 1);
        assert forall|k: int| 0 <= k < row.len() implies exists|b: int|
            j <= b && #[trigger] row[k] == spec_cross_entry(quotes, i, b) && spec_pair_detectable(
                quotes,
                pair,
                min_profit,
                i,
                b,
            ) by {
            if spec_pair_detectable(quotes, pair, min_profit, i, j) {
                if k == 0 {
                    assert(row[k] == spec_cross_entry(quotes, i, j));
                } else {
                    assert(row[k] == rest[k - 1]);
                    let b = choose|b: int|
                        j + 1 <= b && #[trigger] rest[k - 1] == spec_cross_entry(quotes, i, b)
                            && spec_pair_detectable(quotes, pair, min_profit, i, b);
                    assert(row[k] == spec_cross_entry(quotes, i, b));
                }
            } else {
                assert(row[k] == rest[k]);
                let b = choose|b: int|
                    j + 1 <= b && #[trigger] rest[k] == spec_cross_entry(quotes, i, b)
                        && spec_pair_detectable(quotes, pair, min_profit, i, b);
                assert(row[k] == spec_cross_entry(quotes, i, b));
            }
        }
    }
}

pub struct DexRegistry {
    /// The five venues, in the order they are polled.
    pub venues: Vec<DexVenue>,
    /// Latest quote per venue and market.
    pub quotes: Vec<VenueQuote>,
}

impl DexRegistry {
    /// A registry over the five known venues, with no quotes yet.
    pub fn new() -> (r: Self)
        ensures
            r.venues@ == seq![
                DexVenue::Serum,
                DexVenue::Orca,
                DexVenue::Raydium,
                DexVenue::Jupiter,
                DexVenue::Openbook,
            ],
            r.quotes@.len() == 0,
    {
        let mut venues: Vec<DexVenue> = Vec::new();
        venues.push(DexVenue::Serum);
        venues.push(DexVenue::Orca);
        venues.push(DexVenue::Raydium);
        venues.push(DexVenue::Jupiter);
        venues.push(DexVenue::Openbook);
        proof {
            assert(venues@ =~= seq![
                DexVenue::Serum,
                DexVenue::Orca,
                DexVenue::Raydium,
                DexVenue::Jupiter,
                DexVenue::Openbook,
            ]);
        }
        DexRegistry { venues, quotes: Vec::new() }
    }

    /// Record the quote a venue adapter reported; an existing quote for
    /// the same venue and market is replaced wholesale.
    pub fn register_quote(&mut self, q: VenueQuote)
        ensures
            final(self).venues@ == old(self).venues@,
            (exists|k: int|
                0 <= k < old(self).quotes@.len() && spec_same_slot(
                    #[trigger] old(self).quotes@[k],
                    q,
                )) ==> exists|k: int|
                {
                    &&& 0 <= k < old(self).quotes@.len()
                    &&& spec_same_slot(#[trigger] old(self).quotes@[k], q)
                    &&& forall|j: int| 0 <= j < k ==> !spec_same_slot(#[trigger] old(self).quotes@[j], q)
                    &&& final(self).quotes@ == old(self).quotes@.update(k, q)
                },
            (forall|k: int|
                0 <= k < old(self).quotes@.len() ==> !spec_same_slot(
                    #[trigger] old(self).quotes@[k],
                    q,
                )) ==> final(self).quotes@ == old(self).quotes@.push(q),
    {
        let n: usize = self.quotes.len();
        let mut i: usize = 0;
        while i < n
            invariant
                0 <= i <= n,
                n == self.quotes@.len(),
                self.venues@ == old(self).venues@,
                self.quotes@ == old(self).quotes@,
                forall|k: int| 0 <= k < i ==> !spec_same_slot(#[trigger] self.quotes@[k], q),
            decreases n - i,
        {
            let matches_slot: bool = venue_eq(self.quotes[i].venue, q.venue)
                && self.quotes[i].market == q.market;
            if matches_slot {
                self.quotes.set(i, q);
                return ;
            }
            i = i + 1;
        }
        self.quotes.push(q);
    }

    /// Best-priced venue with sufficient depth for the trade: a buy takes
    /// the lowest ask, a sell the highest bid, ties keep the first venue
    /// found. Fails exactly when no venue qualifies.
    pub fn get_best_execution_venue(
        &self,
        token_pair: &TokenPair,
        amount: u64,
        is_buy: bool,
    ) -> (r: Result<(DexVenue, u64), ArbitrageError>)
        ensures
            r matches Ok(best) ==> spec_best_venue(self.quotes@, *token_pair, amount, is_buy)
                == Some((best.0, best.1)),
            r is Err <==> spec_best_venue(self.quotes@, *token_pair, amount, is_buy) is None,
            r is Err ==> (r matches Err(ArbitrageError::MarketError(m)) && m@
                == "No suitable execution venue found"@),
    {
        let n: usize = self.quotes.len();
        let mut best: Option<(DexVenue, u64)> = None;
        let mut i: usize = 0;
        proof {
            assert(self.quotes@.take(0) =~= Seq::<VenueQuote>::empty());
        }
        while i < n
            invariant
                0 <= i <= n,
                n == self.quotes@.len(),
                (match best {
                    Option::None => spec_best_venue(
                        self.quotes@.take(i as int),
                        *token_pair,
                        amount,
                        is_buy,
                    ) is None,
                    Option::Some(b) => spec_best_venue(
                        self.quotes@.take(i as int),
                        *token_pair,
                        amount,
                        is_buy,
                    ) == Some((b.0, b.1)),
                }),
            decreases n - i,
        {
            let q: &VenueQuote = &self.quotes[i];
            let qualifies: bool = q.base_token == token_pair.base_token.address && q.quote_token
                == token_pair.quote_token.address && q.liquidity >= amount;
            let price: u64 = if is_buy {
                q.ask
            } else {
                q.bid
            };
            proof {
                assert(self.quotes@.take(i as int + 1).drop_last() =~= self.quotes@.take(i as int));
                assert(self.quotes@.take(i as int + 1).last() == self.quotes@[i as int]);
            }
            if qualifies {
                let replace: bool = match best {
                    None => true,
                    Some((_, cur)) => if is_buy {
                        price < cur
                    } else {
                        price > cur
                    },
                };
                if replace {
                    best = Some((q.venue, price));
                }
            }
            i = i + 1;
        }
        proof {
            assert(self.quotes@.take(n as int) =~= self.quotes@);
        }
        match best {
            Some(b) => Ok(b),
            None => Err(ArbitrageError::MarketError("No suitable execution venue found".to_owned())),
        }
    }

    fn calculate_cross_dex_profit(&self, quote1: &VenueQuote, quote2: &VenueQuote) -> (r: (
        i64,
        TradeDirection,
    ))
        requires
            quote1.ask > 0,
            quote2.ask > 0,
        ensures
            r.0 as int == spec_cross_profit(*quote1, *quote2).0,
            r.1 == spec_cross_profit(*quote1, *quote2).1,
    {
        let profit1: i64 = ratio_ppm(quote2.bid, quote1.ask);
        let profit2: i64 = ratio_ppm(quote1.bid, quote2.ask);
        if profit1 > profit2 {
            (profit1, TradeDirection::Market1ToMarket2)
        } else {
            (profit2, TradeDirection::Market2ToMarket1)
        }
    }

    /// Every unordered pair of venue listings of the pair is compared in
    /// both directions; the larger spread is reported when it clears the
    /// threshold. Crossed or unpriced quotes are excluded from detection.
    pub fn get_cross_dex_opportunities(&self, token_pair: &TokenPair, min_profit_percentage: i64) -> (r:
        Result<Vec<CrossDexOpportunity>, ArbitrageError>)
        ensures
            r matches Ok(v) && v@ == spec_cross_list(
                self.quotes@,
                *token_pair,
                min_profit_percentage,
                0,
            ),
    {
        let n: usize = self.quotes.len();
        let quotes = Ghost(self.quotes@);
        let pair = Ghost(*token_pair);
        let total = Ghost(spec_cross_list(self.quotes@, *token_pair, min_profit_percentage, 0));
        let mut opportunities: Vec<CrossDexOpportunity> = Vec::new();
        let mut i: usize = 0;
        while i < n
            invariant
                0 <= i <= n,
                n == quotes@.len(),
                quotes@ == self.quotes@,
                pair@ == *token_pair,
                total@ == spec_cross_list(quotes@, pair@, min_profit_percentage, 0),
                opportunities@ + spec_cross_list(quotes@, pair@, min_profit_percentage, i as int)
                    =~= total@,
            decreases n - i,
        {
            let mut j: usize = i + 1;
            proof {
                assert(spec_cross_list(quotes@, pair@, min_profit_percentage, i as int)
                    == spec_cross_row(quotes@, pair@, min_profit_percentage, i as int, i as int + 1)
                    + spec_cross_list(quotes@, pair@, min_profit_percentage, i as int + 1));
            }
            while j < n
                invariant
                    0 <= i < j <= n,
                    n == quotes@.len(),
                    quotes@ == self.quotes@,
                    pair@ == *token_pair,
                    total@ == spec_cross_list(quotes@, pair@, min_profit_percentage, 0),
                    opportunities@ + spec_cross_row(
                        quotes@,
                        pair@,
                        min_profit_percentage,
                        i as int,
                        j as int,
                    ) + spec_cross_list(quotes@, pair@, min_profit_percentage, i as int + 1)
                        =~= total@,
                decreases n - j,
            {
                let q1: &VenueQuote = &self.quotes[i];
                let q2: &VenueQuote = &self.quotes[j];
                let q1_ok: bool = q1.base_token == token_pair.base_token.address && q1.quote_token
                    == token_pair.quote_token.address && q1.bid <= q1.ask && q1.ask > 0;
                let q2_ok: bool = q2.base_token == token_pair.base_token.address && q2.quote_token
                    == token_pair.quote_token.address && q2.bid <= q2.ask && q2.ask > 0;
                proof {
                    assert(spec_cross_row(quotes@, pair@, min_profit_percentage, i as int, j as int)
                        == (if spec_pair_detectable(
                        quotes@,
                        pair@,
                        min_profit_percentage,
                        i as int,
                        j as int,
                    ) {
                        seq![spec_cross_entry(quotes@, i as int, j as int)] + spec_cross_row(
                            quotes@,
                            pair@,
                            min_profit_percentage,
                            i as int,
                            j as int + 1,
                        )
                    } else {
                        spec_cross_row(
                            quotes@,
                            pair@,
                            min_profit_percentage,
                            i as int,
                            j as int + 1,
                        )
                    }));
                }
                if q1_ok && q2_ok {
                    let (profit, direction) = self.calculate_cross_dex_profit(q1, q2);
                    if profit >= min_profit_percentage {
                        let entry = CrossDexOpportunity {
                            source_market: MarketInfo { address: q1.market, venue: q1.venue },
                            target_market: MarketInfo { address: q2.market, venue: q2.venue },
                            profit_percentage: profit,
                            direction,
                        };
                        proof {
                            assert(entry == spec_cross_entry(quotes@, i as int, j as int));
                            assert(spec_pair_detectable(
                                quotes@,
                                pair@,
                                min_profit_percentage,
                                i as int,
                                j as int,
                            ));
                        }
                        opportunities.push(entry);
                    } else {
                        proof {
                            assert(!spec_pair_detectable(
                                quotes@,
                                pair@,
                                min_profit_percentage,
                                i as int,
                                j as int,
                            ));
                        }
                    }
                } else {
                    proof {
                        assert(!spec_pair_detectable(
                            quotes@,
                            pair@,
                            min_profit_percentage,
                            i as int,
                            j as int,
                        ));
                    }
                }
                j = j + 1;
            }
            proof {
                assert(spec_cross_row(quotes@, pair@, min_profit_percentage, i as int, n as int)
                    =~= Seq::<CrossDexOpportunity>::empty());
            }
            i = i + 1;
        }
        proof {
            assert(spec_cross_list(quotes@, pair@, min_profit_percentage, n as int) =~= Seq::<
                CrossDexOpportunity,
            >::empty());
        }
        Ok(opportunities)
    }

    /// First market this venue lists for the pair.
    pub fn find_market(&self, venue: DexVenue, token_pair: &TokenPair) -> (r: Result<
        u64,
        ArbitrageError,
    >)
        ensures
            r matches Ok(m) ==> exists|i: int|
                0 <= i < self.quotes@.len() && #[trigger] self.quotes@[i].venue == venue
                    && self.quotes@[i].base_token == token_pair.base_token.address
                    && self.quotes@[i].quote_token == token_pair.quote_token.address
                    && self.quotes@[i].market == m,
            r is Err <==> (forall|i: int|
                0 <= i < self.quotes@.len() ==> !(#[trigger] self.quotes@[i].venue == venue
                    && self.quotes@[i].base_token == token_pair.base_token.address
                    && self.quotes@[i].quote_token == token_pair.quote_token.address)),
            r is Err ==> (r matches Err(ArbitrageError::MarketError(m)) && m@
                == "Market not found for pair"@),
    {
        let n: usize = self.quotes.len();
        let mut i: usize = 0;
        while i < n
            invariant
                0 <= i <= n,
                n == self.quotes@.len(),
                forall|k: int|
                    0 <= k < i ==> !(#[trigger] self.quotes@[k].venue == venue
                        && self.quotes@[k].base_token == token_pair.base_token.address
                        && self.quotes@[k].quote_token == token_pair.quote_token.address),
            decreases n - i,
        {
            let q: &VenueQuote = &self.quotes[i];
            if venue_eq(q.venue, venue) && q.base_token == token_pair.base_token.address
                && q.quote_token == token_pair.quote_token.address {
                return Ok(q.market);
            }
            i = i + 1;
        }
        Err(ArbitrageError::MarketError("Market not found for pair".to_owned()))
    }

    /// All markets across venues that list the pair, in registry order.
    pub fn get_all_markets(&self, token_pair: &TokenPair) -> (r: Result<
        Vec<MarketInfo>,
        ArbitrageError,
    >)
        ensures
            r matches Ok(v) && v@ == spec_markets_for_pair(self.quotes@, *token_pair),
    {
        let n: usize = self.quotes.len();
        let mut markets: Vec<MarketInfo> = Vec::new();
        let mut i: usize = 0;
        proof {
            assert(self.quotes@.take(0) =~= Seq::<VenueQuote>::empty());
        }
        while i < n
            invariant
                0 <= i <= n,
                n == self.quotes@.len(),
                markets@ == spec_markets_for_pair(self.quotes@.take(i as int), *token_pair),
            decreases n - i,
        {
            let q: &VenueQuote = &self.quotes[i];
            proof {
                assert(self.quotes@.take(i as int + 1).drop_last() =~= self.quotes@.take(i as int));
                assert(self.quotes@.take(i as int + 1).last() == self.quotes@[i as int]);
            }
            if q.base_token == token_pair.base_token.address && q.quote_token
                == token_pair.quote_token.address {
                markets.push(MarketInfo { address: q.market, venue: q.venue });
            }
            i = i + 1;
        }
        proof {
            assert(self.quotes@.take(n as int) =~= self.quotes@);
        }
        Ok(markets)
    }
}

/// Markets listed for a pair, in registry order.
pub open spec fn spec_markets_for_pair(quotes: Seq<VenueQuote>, pair: TokenPair) -> Seq<MarketInfo>
    decreases quotes.len(),
{
    if quotes.len() == 0 {
        Seq::empty()
    } else {
        let rest = spec_markets_for_pair(quotes.drop_last(), pair);
        let q = quotes.last();
        if q.base_token == pair.base_token.address && q.quote_token == pair.quote_token.address {
            rest.push(MarketInfo { address: q.market, venue: q.venue })
        } else {
            rest
        }
    }
}

fn venue_eq(a: DexVenue, b: DexVenue) -> (r: bool)
    ensures
        r == (a == b),
{
    match (a, b) {
        (DexVenue::Serum, DexVenue::Serum) => true,
        (DexVenue::Orca, DexVenue::Orca) => true,
        (DexVenue::Raydium, DexVenue::Raydium) => true,
        (DexVenue::Jupiter, DexVenue::Jupiter) => true,
        (DexVenue::Openbook, DexVenue::Openbook) => true,
        _ => false,
    }
}

/// `num / den - 1` in parts per million, saturated into `i64`.
pub(crate) fn ratio_ppm(num: u64, den: u64) -> (r: i64)
    requires
        den > 0,
    ensures
        r as int == spec_ratio_ppm(num, den),
{
    let scaled: u64 = crate::math::mul_div_u64(num, RATE_SCALE, den);
    let capped: i64 = if scaled > i64::MAX as u64 {
        i64::MAX
    } else {
        scaled as i64
    };
    proof {
        if num as int * RATE_SCALE as int / den as int > u64::MAX as int {
            assert(int_min(num as int * RATE_SCALE as int / den as int, i64::MAX as int)
                == i64::MAX as int);
        }
    }
    capped - (RATE_SCALE as i64)
}

} // verus!
