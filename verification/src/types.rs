//! Core data model of the arbitrage pipeline.
//!
//! Prices are fixed-point integers in micro quote-units per base unit
//! (`PRICE_SCALE`), rates and percentages are parts-per-million
//! (`RATE_SCALE`), amounts are in the base token's smallest unit, and
//! timestamps are non-negative unix seconds. Account and market
//! identifiers are plain numeric ids; the wire-level 32-byte addresses
//! they stand for live outside the core.

use vstd::prelude::*;

verus! {

/// Fixed-point scale for prices: micro quote-units per base unit.
pub const PRICE_SCALE: u64 = 1_000_000;

/// Fixed-point scale for rates and percentages: parts per million.
pub const RATE_SCALE: u64 = 1_000_000;

#[derive(Debug, Clone, Copy, PartialEq, Eq, Structural)]
pub enum TradeSide {
    Buy,
    Sell,
}

#[derive(Debug, Clone, Copy, PartialEq, Eq, Structural)]
pub enum FlashLoanProtocol {
    Solend,
    Port,
    Marinade,
}

#[derive(Debug, Clone, Copy, PartialEq, Eq, Structural)]
pub enum SecurityLevel {
    Low,
    Medium,
    High,
    Maximum,
}

#[derive(Debug)]
pub struct Token {
    /// Numeric account identifier of the token's mint.
    pub address: u64,
    pub symbol: String,
    pub decimals: u8,
}

impl Clone for Token {
    fn clone(&self) -> (res: Self)
        ensures
            res == *self,
    {
        Token { address: self.address, symbol: self.symbol.clone(), decimals: self.decimals }
    }
}

#[derive(Debug)]
pub struct TokenPair {
    pub base_token: Token,
    pub quote_token: Token,
}

impl Clone for TokenPair {
    fn clone(&self) -> (res: Self)
        ensures
            res == *self,
    {
        TokenPair { base_token: self.base_token.clone(), quote_token: self.quote_token.clone() }
    }
}

#[derive(Debug, Clone, Copy, PartialEq, Eq, Structural)]
pub struct TradeStep {
    /// Market this leg trades on; 0 marks a borrow or repay leg that is
    /// bound to a lending protocol rather than a market.
    pub market: u64,
    pub side: TradeSide,
    /// Amount in base-token smallest units.
    pub amount: u64,
    /// Limit price in micro quote-units per base unit; 0 for borrow and
    /// repay legs, where no price applies.
    pub price: u64,
}

#[derive(Debug)]
pub struct MarketState {
    pub market_address: u64,
    pub base_token: Token,
    pub quote_token: Token,
    /// Best bid in micro quote-units per base unit.
    pub best_bid: u64,
    /// Best ask in micro quote-units per base unit.
    pub best_ask: u64,
    /// Available depth in base-token smallest units.
    pub liquidity: u64,
    /// Unix seconds of the last successful poll.
    pub last_update: i64,
}

impl Clone for MarketState {
    fn clone(&self) -> (res: Self)
        ensures
            res == *self,
    {
        MarketState {
            market_address: self.market_address,
            base_token: self.base_token.clone(),
            quote_token: self.quote_token.clone(),
            best_bid: self.best_bid,
            best_ask: self.best_ask,
            liquidity: self.liquidity,
            last_update: self.last_update,
        }
    }
}

impl MarketState {
    /// A market whose book is crossed (bid above ask) is invalid: it is
    /// treated as stale and excluded from opportunity detection.
    pub open spec fn spec_healthy(&self) -> bool {
        self.best_bid <= self.best_ask
    }

    pub fn is_healthy(&self) -> (r: bool)
        ensures
            r == self.spec_healthy(),
    {
        self.best_bid <= self.best_ask
    }

    pub fn token_pair(&self) -> (r: TokenPair)
        ensures
            r.base_token == self.base_token,
            r.quote_token == self.quote_token,
    {
        TokenPair { base_token: self.base_token.clone(), quote_token: self.quote_token.clone() }
    }

    /// Depth available on this market, as the venue last reported it.
    pub fn get_liquidity(&self) -> (r: Result<u64, ArbitrageError>)
        ensures
            r matches Ok(l) && l == self.liquidity,
    {
        Ok(self.liquidity)
    }
}

#[derive(Debug)]
pub struct ArbitrageOpportunity {
    pub source_market: u64,
    pub target_market: u64,
    pub token_pair: TokenPair,
    /// Net profit relative to entry cost, in parts per million.
    pub profit_percentage: i64,
    /// Position size in base-token smallest units.
    pub required_amount: u64,
    /// Estimated net profit in micro quote-units.
    pub estimated_profit: u64,
    pub route: Vec<TradeStep>,
    /// Unix seconds at creation; never patched afterwards.
    pub timestamp: i64,
}

impl Clone for ArbitrageOpportunity {
    fn clone(&self) -> (res: Self)
        ensures
            res.source_market == self.source_market,
            res.target_market == self.target_market,
            res.token_pair == self.token_pair,
            res.profit_percentage == self.profit_percentage,
            res.required_amount == self.required_amount,
            res.estimated_profit == self.estimated_profit,
            res.route@ == self.route@,
            res.timestamp == self.timestamp,
    {
        let route = self.route.clone();
        assert(route@ =~= self.route@);
        ArbitrageOpportunity {
            source_market: self.source_market,
            target_market: self.target_market,
            token_pair: self.token_pair.clone(),
            profit_percentage: self.profit_percentage,
            required_amount: self.required_amount,
            estimated_profit: self.estimated_profit,
            route,
            timestamp: self.timestamp,
        }
    }
}

#[derive(Debug)]
pub struct FlashLoanParams {
    pub token: Token,
    pub amount: u64,
    pub protocol: FlashLoanProtocol,
}

impl Clone for FlashLoanParams {
    fn clone(&self) -> (res: Self)
        ensures
            res == *self,
    {
        FlashLoanParams { token: self.token.clone(), amount: self.amount, protocol: self.protocol }
    }
}

#[derive(Debug)]
pub struct ExecutionResult {
    pub success: bool,
    /// Realized profit in micro quote-units, when the attempt succeeded.
    pub profit_realized: Option<u64>,
    pub error: Option<String>,
    pub transaction_signature: Option<String>,
    pub execution_time_ms: u64,
}

#[derive(Debug)]
pub struct MarketPrices {
    pub market: u64,
    /// Latest price per token symbol, in micro quote-units.
    pub prices: Vec<(String, u64)>,
    pub timestamp: i64,
}

#[derive(Debug)]
pub struct BotConfig {
    /// Raw signing-key bytes, once loaded; the credential itself is
    /// handled outside the core.
    pub keypair: Option<Vec<u8>>,
    pub rpc_url: String,
    /// Minimum acceptable profit in parts per million.
    pub min_profit_percentage: i64,
    pub max_trade_size: u64,
    pub markets_whitelist: Option<Vec<u64>>,
    pub tokens_whitelist: Option<Vec<u64>>,
    pub use_flash_loans: bool,
    pub mev_protection: bool,
    pub quantum_security: bool,
}

#[derive(Debug)]
pub struct SecurityConfig {
    pub level: SecurityLevel,
    /// Maximum tolerated slippage in parts per million.
    pub max_slippage: u64,
    pub timeout_ms: u64,
    pub require_signatures: bool,
}

#[derive(Debug)]
pub enum ArbitrageError {
    MarketError(String),
    InsufficientFunds(String),
    FlashLoanError(String),
    TransactionError(String),
    SecurityViolation(String),
    ConfigError(String),
    NetworkError(String),
    MevAttackDetected(String),
}

impl ArbitrageError {
    /// Human-readable description: a fixed prefix naming the error class,
    /// followed by the carried detail.
    pub fn describe(&self) -> (s: String)
        ensures
            match self {
                ArbitrageError::MarketError(m) => s@ == "Market error: "@ + m@,
                ArbitrageError::InsufficientFunds(m) => s@ == "Insufficient funds: "@ + m@,
                ArbitrageError::FlashLoanError(m) => s@ == "Flash loan error: "@ + m@,
                ArbitrageError::TransactionError(m) => s@ == "Transaction error: "@ + m@,
                ArbitrageError::SecurityViolation(m) => s@ == "Security violation: "@ + m@,
                ArbitrageError::ConfigError(m) => s@ == "Configuration error: "@ + m@,
                ArbitrageError::NetworkError(m) => s@ == "Network error: "@ + m@,
                ArbitrageError::MevAttackDetected(m) => s@ == "MEV attack detected: "@ + m@,
            },
    {
        match self {
            ArbitrageError::MarketError(m) => {
                let mut s = "Market error: ".to_owned();
                s.append(m.as_str());
                s
            },
            ArbitrageError::InsufficientFunds(m) => {
                let mut s = "Insufficient funds: ".to_owned();
                s.append(m.as_str());
                s
            },
            ArbitrageError::FlashLoanError(m) => {
                let mut s = "Flash loan error: ".to_owned();
                s.append(m.as_str());
                s
            },
            ArbitrageError::TransactionError(m) => {
                let mut s = "Transaction error: ".to_owned();
                s.append(m.as_str());
                s
            },
            ArbitrageError::SecurityViolation(m) => {
                let mut s = "Security violation: ".to_owned();
                s.append(m.as_str());
                s
            },
            ArbitrageError::ConfigError(m) => {
                let mut s = "Configuration error: ".to_owned();
                s.append(m.as_str());
                s
            },
            ArbitrageError::NetworkError(m) => {
                let mut s = "Network error: ".to_owned();
                s.append(m.as_str());
                s
            },
            ArbitrageError::MevAttackDetected(m) => {
                let mut s = "MEV attack detected: ".to_owned();
                s.append(m.as_str());
                s
            },
        }
    }
}

impl Clone for ArbitrageError {
    fn clone(&self) -> (res: Self)
        ensures
            match self {
                ArbitrageError::MarketError(m) => res matches ArbitrageError::MarketError(n) && n@ == m@,
                ArbitrageError::InsufficientFunds(m) => res matches ArbitrageError::InsufficientFunds(n) && n@ == m@,
                ArbitrageError::FlashLoanError(m) => res matches ArbitrageError::FlashLoanError(n) && n@ == m@,
                ArbitrageError::TransactionError(m) => res matches ArbitrageError::TransactionError(n) && n@ == m@,
                ArbitrageError::SecurityViolation(m) => res matches ArbitrageError::SecurityViolation(n) && n@ == m@,
                ArbitrageError::ConfigError(m) => res matches ArbitrageError::ConfigError(n) && n@ == m@,
                ArbitrageError::NetworkError(m) => res matches ArbitrageError::NetworkError(n) && n@ == m@,
                ArbitrageError::MevAttackDetected(m) => res matches ArbitrageError::MevAttackDetected(n) && n@ == m@,
            },
    {
        match self {
            ArbitrageError::MarketError(m) => ArbitrageError::MarketError(m.clone()),
            ArbitrageError::InsufficientFunds(m) => ArbitrageError::InsufficientFunds(m.clone()),
            ArbitrageError::FlashLoanError(m) => ArbitrageError::FlashLoanError(m.clone()),
            ArbitrageError::TransactionError(m) => ArbitrageError::TransactionError(m.clone()),
            ArbitrageError::SecurityViolation(m) => ArbitrageError::SecurityViolation(m.clone()),
            ArbitrageError::ConfigError(m) => ArbitrageError::ConfigError(m.clone()),
            ArbitrageError::NetworkError(m) => ArbitrageError::NetworkError(m.clone()),
            ArbitrageError::MevAttackDetected(m) => ArbitrageError::MevAttackDetected(m.clone()),
        }
    }
}

/// Result alias for arbitrage operations.
pub type ArbitrageResult<T> = Result<T, ArbitrageError>;

/// Whether some cached state carries the given market identifier.
pub open spec fn spec_has_market(states: Seq<MarketState>, market: u64) -> bool {
    exists|i: int| 0 <= i < states.len() && states[i].market_address == market
}

/// The first cached state carrying the given market identifier.
pub open spec fn spec_find_market(states: Seq<MarketState>, market: u64) -> Option<MarketState>
    decreases states.len(),
{
    if states.len() == 0 {
        None
    } else if states[0].market_address == market {
        Some(states[0])
    } else {
        spec_find_market(states.skip(1), market)
    }
}

pub proof fn lemma_find_market_some(states: Seq<MarketState>, market: u64)
    ensures
        spec_find_market(states, market) is Some <==> spec_has_market(states, market),
        spec_find_market(states, market) matches Some(m) ==> m.market_address == market
            && spec_has_market(states, market),
        spec_find_market(states, market) matches Some(m) ==> exists|i: int|
            0 <= i < states.len() && #[trigger] states[i] == m,
    decreases states.len(),
{
    if states.len() > 0 && states[0].market_address != market {
        lemma_find_market_some(states.skip(1), market);
        if spec_find_market(states.skip(1), market) is Some {
            let m = spec_find_market(states.skip(1), market)->Some_0;
            let i = choose|i: int| 0 <= i < states.skip(1).len() && states.skip(1)[i] == m;
            assert(states[i + 1] == m);
        }
        assert(spec_has_market(states.skip(1), market) ==> spec_has_market(states, market)) by {
            if spec_has_market(states.skip(1), market) {
                let i = choose|i: int|
                    0 <= i < states.skip(1).len() && states.skip(1)[i].market_address == market;
                assert(states[i + 1].market_address == market);
            }
        }
        assert(spec_has_market(states, market) ==> spec_has_market(states.skip(1), market)) by {
            if spec_has_market(states, market) {
                let i = choose|i: int| 0 <= i < states.len() && states[i].market_address == market;
                assert(i >= 1);
                assert(states.skip(1)[i - 1].market_address == market);
            }
        }
    }
}

/// Linear scan for the first state of the given market, as every
/// component resolves a route leg against the cache snapshot.
pub fn find_market_state<'a>(states: &'a [MarketState], market: u64) -> (r: Option<
    &'a MarketState,
>)
    ensures
        r matches Some(m) ==> spec_find_market(states@, market) == Some(*m),
        r is None <==> !spec_has_market(states@, market),
{
    proof {
        lemma_find_market_some(states@, market);
        assert(states@.skip(0) =~= states@);
    }
    let n: usize = states.len();
    let mut i: usize = 0;
    while i < n
        invariant
            0 <= i <= n,
            n == states@.len(),
            spec_find_market(states@, market) == spec_find_market(states@.skip(i as int), market),
            forall|j: int| 0 <= j < i ==> states@[j].market_address != market,
        decreases n - i,
    {
        if states[i].market_address == market {
            proof {
                assert(states@.skip(i as int)[0] == states@[i as int]);
            }
            return Some(&states[i]);
        }
        proof {
            assert(states@.skip(i as int).skip(1) =~= states@.skip(i as int + 1));
            assert(states@.skip(i as int)[0] == states@[i as int]);
        }
        i = i + 1;
    }
    proof {
        assert(states@.skip(n as int).len() == 0);
        if spec_has_market(states@, market) {
            let j = choose|j: int| 0 <= j < states@.len() && states@[j].market_address == market;
            assert(false);
        }
    }
    None
}

} // verus!
