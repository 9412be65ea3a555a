//! The detection strategies and their shared plumbing.
//!
//! The strategy set is closed and known at compile time, so dispatch goes
//! through a tagged variant rather than indirection; adding a strategy
//! means adding a case.

pub mod flash_loan;
pub mod front_running;
pub mod jit_liquidity;

use vstd::prelude::*;
use vstd::multiset::Multiset;
use crate::settings::Settings;
use crate::types::{
    ArbitrageError, ArbitrageOpportunity, MarketState, spec_find_market, spec_has_market,
};
use crate::strategies::flash_loan::{FlashLoanStrategy, FLASH_FRESHNESS_SECS};
use crate::strategies::front_running::{FrontRunningStrategy, FRONT_FRESHNESS_SECS};
use crate::strategies::jit_liquidity::{JitLiquidityStrategy, JIT_FRESHNESS_SECS};

verus! {

broadcast use vstd::seq_lib::group_to_multiset_ensures;

/// Opportunities ordered by descending profit percentage, so a consumer
/// can greedily take the best first.
pub open spec fn spec_sorted_desc(s: Seq<ArbitrageOpportunity>) -> bool {
    forall|i: int, j: int|
        0 <= i < j < s.len() ==> s[i].profit_percentage >= s[j].profit_percentage
}

/// Sort opportunities by descending profit percentage. The result is a
/// permutation of the input.
pub fn sort_opportunities_by_profit(opportunities: &mut Vec<ArbitrageOpportunity>)
    ensures
        spec_sorted_desc(final(opportunities)@),
        final(opportunities)@.to_multiset() == old(opportunities)@.to_multiset(),
{
    let mut sorted: Vec<ArbitrageOpportunity> = Vec::new();
    while opportunities.len() > 0
        invariant
            spec_sorted_desc(sorted@),
            sorted@.to_multiset().add(opportunities@.to_multiset()) == old(
                opportunities,
            )@.to_multiset(),
            forall|i: int, j: int|
                0 <= i < sorted@.len() && 0 <= j < opportunities@.len()
                    ==> sorted@[i].profit_percentage >= opportunities@[j].profit_percentage,
        decreases opportunities@.len(),
    {
        let n: usize = opportunities.len();
        let mut best_idx: usize = 0;
        let mut k: usize = 1;
        while k < n
            invariant
                0 <= best_idx < k <= n,
                n == opportunities@.len(),
                forall|t: int|
                    0 <= t < k ==> opportunities@[t].profit_percentage
                        <= opportunities@[best_idx as int].profit_percentage,
            decreases n - k,
        {
            if opportunities[k].profit_percentage > opportunities[best_idx].profit_percentage {
                best_idx = k;
            }
            k = k + 1;
        }
        let item = opportunities.remove(best_idx);
        sorted.push(item);
    }
    proof {
        assert(sorted@.to_multiset().add(Multiset::<ArbitrageOpportunity>::empty())
            =~= sorted@.to_multiset());
        assert(opportunities@.to_multiset() =~= Multiset::<ArbitrageOpportunity>::empty()) by {
            assert(opportunities@ =~= Seq::<ArbitrageOpportunity>::empty());
        }
    }
    *opportunities = sorted;
}

/// Pairwise-distinct identifiers, as a well-formed market cache yields.
pub open spec fn spec_distinct_ids(ids: Seq<u64>) -> bool {
    forall|i: int, j: int| 0 <= i < j < ids.len() ==> ids[i] != ids[j]
}

/// A permutation of a duplicate-free sequence is duplicate-free.
pub proof fn lemma_no_duplicates_permutation(
    a: Seq<ArbitrageOpportunity>,
    b: Seq<ArbitrageOpportunity>,
)
    requires
        a.no_duplicates(),
        a.to_multiset() == b.to_multiset(),
    ensures
        b.no_duplicates(),
{
    a.lemma_multiset_has_no_duplicates();
    assert forall|x: ArbitrageOpportunity| b.to_multiset().contains(x) implies b.to_multiset().count(
        x,
    ) == 1 by {
        assert(a.to_multiset().contains(x));
    }
    b.lemma_multiset_has_no_duplicates_conv();
}

/// The closed set of detection strategies, dispatched by tag.
#[derive(Debug, Clone, Copy, PartialEq, Eq, Structural)]
pub enum StrategyKind {
    JitLiquidity,
    FlashLoan,
    FrontRunning,
}

/// One detection strategy; the set is fixed, so dispatch is a match on
/// the variant rather than indirection.
pub enum Strategy {
    JitLiquidity(JitLiquidityStrategy),
    FlashLoan(FlashLoanStrategy),
    FrontRunning(FrontRunningStrategy),
}

impl Strategy {
    pub open spec fn spec_kind(&self) -> StrategyKind {
        match self {
            Strategy::JitLiquidity(_) => StrategyKind::JitLiquidity,
            Strategy::FlashLoan(_) => StrategyKind::FlashLoan,
            Strategy::FrontRunning(_) => StrategyKind::FrontRunning,
        }
    }

    pub open spec fn spec_settings(&self) -> Settings {
        match self {
            Strategy::JitLiquidity(s) => s.settings,
            Strategy::FlashLoan(s) => s.settings,
            Strategy::FrontRunning(s) => s.settings,
        }
    }

    /// Whether the strategy is ready to scan: its settings validated and
    /// its protocol table, where it has one, non-empty.
    pub open spec fn spec_ready(&self) -> bool {
        &&& self.spec_settings().spec_valid()
        &&& (self matches Strategy::FlashLoan(f) ==> f.protocol_rates@.len() > 0)
        &&& (self matches Strategy::FrontRunning(f) ==> forall|t: int|
            0 <= t < f.pending_transactions@.len()
                ==> #[trigger] f.pending_transactions@[t].timestamp >= 0)
    }

    /// The snapshot the strategy currently scans.
    pub open spec fn spec_market_states(&self) -> Seq<MarketState> {
        match self {
            Strategy::JitLiquidity(s) => s.market_states@,
            Strategy::FlashLoan(s) => s.market_states@,
            Strategy::FrontRunning(s) => s.market_states@,
        }
    }

    /// The strategy-specific freshness window, in seconds: how quickly
    /// this class of opportunity decays.
    pub open spec fn spec_freshness_window(&self) -> int {
        match self {
            Strategy::JitLiquidity(_) => JIT_FRESHNESS_SECS as int,
            Strategy::FlashLoan(_) => FLASH_FRESHNESS_SECS as int,
            Strategy::FrontRunning(_) => FRONT_FRESHNESS_SECS as int,
        }
    }

    pub fn name(&self) -> (r: &'static str)
        ensures
            match self {
                Strategy::JitLiquidity(_) => r@ == "JIT Liquidity Strategy"@,
                Strategy::FlashLoan(_) => r@ == "Flash Loan Strategy"@,
                Strategy::FrontRunning(_) => r@ == "Front Running Strategy"@,
            },
    {
        match self {
            Strategy::JitLiquidity(s) => s.name(),
            Strategy::FlashLoan(s) => s.name(),
            Strategy::FrontRunning(s) => s.name(),
        }
    }

    /// Hand the strategy a fresh snapshot of the market cache.
    pub fn set_market_states(&mut self, market_states: Vec<MarketState>)
        ensures
            final(self).spec_kind() == old(self).spec_kind(),
            final(self).spec_settings() == old(self).spec_settings(),
            final(self).spec_ready() == old(self).spec_ready(),
            final(self).spec_market_states() == market_states@,
    {
        match self {
            Strategy::JitLiquidity(s) => s.set_market_states(market_states),
            Strategy::FlashLoan(s) => s.set_market_states(market_states),
            Strategy::FrontRunning(s) => s.set_market_states(market_states),
        }
    }

    /// Scan for candidates. Whichever variant runs, the result comes
    /// back ordered by descending profit percentage, and the variant's
    /// own scan contract — failure exactly on a market missing from the
    /// snapshot, soundness, completeness and freedom from duplicates —
    /// carries through the dispatch.
    pub fn analyze(&self, markets: &[u64], now: i64) -> (r: Result<
        Vec<ArbitrageOpportunity>,
        ArbitrageError,
    >)
        requires
            self.spec_ready(),
            now >= 0,
        ensures
            r matches Ok(v) ==> spec_sorted_desc(v@),
            (match self {
                Strategy::JitLiquidity(s) => {
                    &&& (r is Err <==> jit_liquidity::spec_jit_scan_blocked(
                        s.market_states@,
                        markets@,
                    ))
                    &&& (r matches Ok(v) ==> {
                        &&& jit_liquidity::spec_jit_scan_sound(
                            s.market_states@,
                            s.settings,
                            markets@,
                            now,
                            v@,
                        )
                        &&& jit_liquidity::spec_jit_scan_complete(
                            s.market_states@,
                            s.settings,
                            markets@,
                            now,
                            markets@.len() as int,
                            v@,
                        )
                        &&& (spec_distinct_ids(markets@) ==> v@.no_duplicates())
                    })
                },
                Strategy::FlashLoan(s) => {
                    &&& (r is Err <==> flash_loan::spec_flash_scan_blocked(
                        s.market_states@,
                        markets@,
                    ))
                    &&& (r matches Ok(v) ==> {
                        &&& flash_loan::spec_flash_scan_sound(
                            s.market_states@,
                            s.settings,
                            s.protocol_rates@,
                            markets@,
                            now,
                            v@,
                        )
                        &&& flash_loan::spec_flash_scan_complete(
                            s.market_states@,
                            s.settings,
                            s.protocol_rates@,
                            markets@,
                            now,
                            markets@.len() as int,
                            0,
                            v@,
                        )
                        &&& (spec_distinct_ids(markets@) ==> v@.no_duplicates())
                    })
                },
                Strategy::FrontRunning(s) => {
                    &&& (r is Err <==> front_running::spec_front_scan_blocked(
                        s.market_states@,
                        s.pending_transactions@,
                    ))
                    &&& (r matches Ok(v) ==> {
                        &&& front_running::spec_front_scan_sound(
                            s.market_states@,
                            s.settings,
                            s.pending_transactions@,
                            now,
                            v@,
                        )
                        &&& front_running::spec_front_scan_complete(
                            s.market_states@,
                            s.settings,
                            s.pending_transactions@,
                            now,
                            s.pending_transactions@.len() as int,
                            v@,
                        )
                        &&& (front_running::spec_front_distinct_markets(s.pending_transactions@)
                            ==> v@.no_duplicates())
                    })
                },
            }),
    {
        match self {
            Strategy::JitLiquidity(s) => s.analyze(markets, now),
            Strategy::FlashLoan(s) => s.analyze(markets, now),
            Strategy::FrontRunning(s) => s.analyze(markets, now),
        }
    }

    /// Re-validation gate. Whatever the variant, an opportunity older
    /// than the strategy's freshness window is always rejected; within
    /// the window each variant's exact verdict carries through the
    /// dispatch.
    pub fn validate(&self, opportunity: &ArbitrageOpportunity, now: i64) -> (r: Result<
        bool,
        ArbitrageError,
    >)
        requires
            opportunity.timestamp >= 0,
            now >= 0,
        ensures
            now - opportunity.timestamp > self.spec_freshness_window() ==> !(r matches Ok(b)
                && b),
            (match self {
                Strategy::JitLiquidity(s) => r matches Ok(b) && b
                    == jit_liquidity::spec_jit_validate(*opportunity, s.settings, now),
                Strategy::FlashLoan(s) => {
                    &&& (now - opportunity.timestamp > flash_loan::FLASH_FRESHNESS_SECS ==> (r
                        matches Ok(b) && !b))
                    &&& (now - opportunity.timestamp <= flash_loan::FLASH_FRESHNESS_SECS ==> {
                        &&& ((!spec_has_market(s.market_states@, opportunity.source_market)
                            || !spec_has_market(s.market_states@, opportunity.target_market))
                            <==> r is Err)
                        &&& (r matches Ok(b) ==> b == flash_loan::spec_flash_suitable(
                            spec_find_market(s.market_states@, opportunity.source_market)->Some_0,
                            spec_find_market(s.market_states@, opportunity.target_market)->Some_0,
                            s.settings,
                            s.protocol_rates@,
                        ))
                    })
                },
                Strategy::FrontRunning(s) => {
                    &&& (now - opportunity.timestamp > front_running::FRONT_FRESHNESS_SECS ==> (r
                        matches Ok(b) && !b))
                    &&& (now - opportunity.timestamp <= front_running::FRONT_FRESHNESS_SECS ==> {
                        &&& (r is Err <==> !spec_has_market(
                            s.market_states@,
                            opportunity.source_market,
                        ))
                        &&& (r matches Ok(b) ==> b == front_running::spec_front_validate(
                            s.market_states@,
                            s.settings,
                            *opportunity,
                            now,
                        ))
                    })
                },
            }),
    {
        match self {
            Strategy::JitLiquidity(s) => s.validate(opportunity, now),
            Strategy::FlashLoan(s) => s.validate(opportunity, now),
            Strategy::FrontRunning(s) => s.validate(opportunity, now),
        }
    }
}

/// Case-sensitive equality of two strings.
fn str_eq(a: &str, b: &str) -> (r: bool)
    ensures
        r == (a@ == b@),
{
    let left: String = a.to_owned();
    let right: String = b.to_owned();
    left == right
}

/// Whether the list carries the given name.
fn contains_name(list: &Vec<String>, name: &str) -> (r: bool)
    ensures
        r == exists|i: int| 0 <= i < list@.len() && #[trigger] list@[i]@ == name@,
{
    let n: usize = list.len();
    let mut i: usize = 0;
    while i < n
        invariant
            0 <= i <= n,
            n == list@.len(),
            forall|k: int| 0 <= k < i ==> #[trigger] list@[k]@ != name@,
        decreases n - i,
    {
        if str_eq(list[i].as_str(), name) {
            return true;
        }
        i = i + 1;
    }
    false
}

/// Builds strategies by name.
pub struct StrategyFactory;

impl StrategyFactory {
    /// The strategy registered under the given name, over the default
    /// configuration; unknown names are a configuration error.
    pub fn create_strategy(strategy_type: &str) -> (r: Result<Strategy, ArbitrageError>)
        ensures
            strategy_type@ == "jit"@ ==> (r matches Ok(s) && s.spec_kind()
                == StrategyKind::JitLiquidity && s.spec_ready()),
            strategy_type@ == "flash_loan"@ ==> (r matches Ok(s) && s.spec_kind()
                == StrategyKind::FlashLoan && s.spec_ready()),
            strategy_type@ == "front_running"@ ==> (r matches Ok(s) && s.spec_kind()
                == StrategyKind::FrontRunning && s.spec_ready()),
            strategy_type@ != "jit"@ && strategy_type@ != "flash_loan"@ && strategy_type@
                != "front_running"@ ==> (r matches Err(ArbitrageError::ConfigError(m)) && m@
                == "Unknown strategy type: "@ + strategy_type@),
    {
        proof {
            reveal_strlit("jit");
            reveal_strlit("flash_loan");
            reveal_strlit("front_running");
            assert("jit"@.len() == 3);
            assert("flash_loan"@.len() == 10);
            assert("front_running"@.len() == 13);
        }
        if str_eq(strategy_type, "jit") {
            Ok(Strategy::JitLiquidity(JitLiquidityStrategy::new()))
        } else if str_eq(strategy_type, "flash_loan") {
            Ok(Strategy::FlashLoan(FlashLoanStrategy::new()))
        } else if str_eq(strategy_type, "front_running") {
            Ok(Strategy::FrontRunning(FrontRunningStrategy::new()))
        } else {
            let mut message: String = "Unknown strategy type: ".to_owned();
            message.append(strategy_type);
            Err(ArbitrageError::ConfigError(message))
        }
    }
}

/// The strategy kinds the configuration enables, in the fixed order the
/// engine initializes them.
pub open spec fn spec_enabled_kinds(s: Settings) -> Seq<StrategyKind> {
    let names = s.trading.execution.execution_strategies;
    (if exists|i: int| 0 <= i < names@.len() && #[trigger] names@[i]@ == "jit"@ {
        seq![StrategyKind::JitLiquidity]
    } else {
        Seq::empty()
    }) + (if exists|i: int| 0 <= i < names@.len() && #[trigger] names@[i]@ == "flash_loan"@ {
        seq![StrategyKind::FlashLoan]
    } else {
        Seq::empty()
    }) + (if exists|i: int| 0 <= i < names@.len() && #[trigger] names@[i]@ == "front_running"@ {
        seq![StrategyKind::FrontRunning]
    } else {
        Seq::empty()
    })
}

/// Instantiate every strategy the configuration enables, each over the
/// engine's single validated settings.
pub fn initialize_strategies(settings: &Settings) -> (r: Result<Vec<Strategy>, ArbitrageError>)
    requires
        settings.spec_valid(),
    ensures
        r matches Ok(v) && v@.map_values(|st: Strategy| st.spec_kind()) == spec_enabled_kinds(
            *settings,
        ),
        r matches Ok(v) ==> forall|k: int|
            0 <= k < v@.len() ==> {
                let got = (#[trigger] v@[k]).spec_settings();
                &&& v@[k].spec_ready()
                &&& got.trading.execution.min_profit_threshold
                    == settings.trading.execution.min_profit_threshold
                &&& got.trading.execution.max_position_size
                    == settings.trading.execution.max_position_size
                &&& got.trading.markets.min_liquidity == settings.trading.markets.min_liquidity
                &&& got.trading.markets.max_spread == settings.trading.markets.max_spread
                &&& got.trading.risk == settings.trading.risk
            },
{
    let mut strategies: Vec<Strategy> = Vec::new();
    if contains_name(&settings.trading.execution.execution_strategies, "jit") {
        strategies.push(
            Strategy::JitLiquidity(JitLiquidityStrategy::with_market_data(settings.clone(), Vec::new())),
        );
    }
    if contains_name(&settings.trading.execution.execution_strategies, "flash_loan") {
        strategies.push(
            Strategy::FlashLoan(FlashLoanStrategy::with_market_data(settings.clone(), Vec::new())),
        );
    }
    if contains_name(&settings.trading.execution.execution_strategies, "front_running") {
        strategies.push(
            Strategy::FrontRunning(
                FrontRunningStrategy::with_market_data(settings.clone(), Vec::new()),
            ),
        );
    }
    proof {
        assert(strategies@.map_values(|st: Strategy| st.spec_kind()) =~= spec_enabled_kinds(
            *settings,
        ));
    }
    Ok(strategies)
}

/// Re-checks a candidate before it is handed on.
pub trait OpportunityValidator {
    fn validate_opportunity(&self, opportunity: &ArbitrageOpportunity) -> Result<
        bool,
        ArbitrageError,
    >;
}

/// Judges a candidate against risk limits.
pub trait RiskManager {
    fn check_risk_parameters(&self, opportunity: &ArbitrageOpportunity) -> Result<
        bool,
        ArbitrageError,
    >;
}

/// Judges whether overall market conditions allow trading.
pub trait MarketAnalyzer {
    fn analyze_market_conditions(&self) -> Result<bool, ArbitrageError>;
}

} // verus!
