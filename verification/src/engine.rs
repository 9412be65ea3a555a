//! Engine-side state and gates: the shared market-state cache, the
//! per-cycle stage machine, the re-validation and security gates between
//! detection and execution, and the terminal execution record.
//!
//! The cache favors many concurrent readers over a single writer: a
//! refresh replaces one market's state wholesale, so a reader observes
//! either the fully-old or the fully-new record, never a half-updated
//! one. The polling, submission and confirmation I/O that surrounds
//! these gates suspends outside the core and hands plain values in.

use vstd::prelude::*;
use crate::profit::{spec_profitable, ProfitCalculator, MAX_ROUTE_LEGS};
use crate::settings::Settings;
use crate::types::{
    ArbitrageError, ArbitrageOpportunity, ExecutionResult, MarketState, find_market_state,
    lemma_find_market_some, spec_find_market, spec_has_market,
};

verus! {

/// Maximum age of a market snapshot before the validation gate treats
/// it as stale, in seconds.
pub const MAX_MARKET_AGE_SECS: i64 = 5;

/// Maximum age of an opportunity at the engine's re-validation gate, in
/// seconds.
pub const MAX_OPPORTUNITY_AGE_SECS: i64 = 5;

/// The per-cycle stage machine of the engine.
#[derive(Debug, Clone, Copy, PartialEq, Eq, Structural)]
pub enum CycleStage {
    Idle,
    Refreshing,
    Detecting,
    Validating,
    Scoring,
    Building,
    Submitting,
    Confirming,
}

/// The stage that follows a successful step.
pub open spec fn spec_next_stage(stage: CycleStage) -> CycleStage {
    match stage {
        CycleStage::Idle => CycleStage::Refreshing,
        CycleStage::Refreshing => CycleStage::Detecting,
        CycleStage::Detecting => CycleStage::Validating,
        CycleStage::Validating => CycleStage::Scoring,
        CycleStage::Scoring => CycleStage::Building,
        CycleStage::Building => CycleStage::Submitting,
        CycleStage::Submitting => CycleStage::Confirming,
        CycleStage::Confirming => CycleStage::Idle,
    }
}

/// Advance the cycle: a successful step moves to the next stage, any
/// stage's failure aborts the cycle back to idle.
pub fn advance_stage(stage: CycleStage, step_succeeded: bool) -> (r: CycleStage)
    ensures
        step_succeeded ==> r == spec_next_stage(stage),
        !step_succeeded ==> r == CycleStage::Idle,
{
    if !step_succeeded {
        return CycleStage::Idle;
    }
    match stage {
        CycleStage::Idle => CycleStage::Refreshing,
        CycleStage::Refreshing => CycleStage::Detecting,
        CycleStage::Detecting => CycleStage::Validating,
        CycleStage::Validating => CycleStage::Scoring,
        CycleStage::Scoring => CycleStage::Building,
        CycleStage::Building => CycleStage::Submitting,
        CycleStage::Submitting => CycleStage::Confirming,
        CycleStage::Confirming => CycleStage::Idle,
    }
}

/// The shared snapshot of per-market state, keyed by market address.
pub struct MarketStateCache {
    pub states: Vec<MarketState>,
}

impl MarketStateCache {
    /// At most one record per market, every record with a non-negative
    /// poll timestamp.
    pub open spec fn spec_wf(&self) -> bool {
        &&& forall|i: int, j: int|
            0 <= i < j < self.states@.len() ==> #[trigger] self.states@[i].market_address
                != #[trigger] self.states@[j].market_address
        &&& forall|i: int|
            0 <= i < self.states@.len() ==> #[trigger] self.states@[i].last_update >= 0
    }

    pub fn new() -> (r: Self)
        ensures
            r.states@.len() == 0,
            r.spec_wf(),
    {
        MarketStateCache { states: Vec::new() }
    }

    /// Replace one market's record wholesale, or admit the market on its
    /// first successful poll. No other market's record changes.
    pub fn refresh(&mut self, state: MarketState)
        requires
            old(self).spec_wf(),
            state.last_update >= 0,
        ensures
            final(self).spec_wf(),
            (exists|k: int|
                0 <= k < old(self).states@.len() && (#[trigger] old(
                    self,
                ).states@[k]).market_address == state.market_address) ==> exists|k: int|
                {
                    &&& 0 <= k < old(self).states@.len()
                    &&& (#[trigger] old(self).states@[k]).market_address == state.market_address
                    &&& final(self).states@ == old(self).states@.update(k, state)
                },
            (forall|k: int|
                0 <= k < old(self).states@.len() ==> (#[trigger] old(
                    self,
                ).states@[k]).market_address != state.market_address) ==> final(self).states@
                == old(self).states@.push(state),
    {
        let n: usize = self.states.len();
        let mut i: usize = 0;
        while i < n
            invariant
                0 <= i <= n,
                n == self.states@.len(),
                self.states@ == old(self).states@,
                old(self).spec_wf(),
                state.last_update >= 0,
                forall|k: int|
                    0 <= k < i ==> (#[trigger] self.states@[k]).market_address
                        != state.market_address,
            decreases n - i,
        {
            if self.states[i].market_address == state.market_address {
                let ghost pre = self.states@;
                self.states.set(i, state);
                proof {
                    assert forall|p: int, q: int|
                        0 <= p < q < self.states@.len() implies self.states@[p].market_address
                        != self.states@[q].market_address by {
                        assert(pre[p].market_address != pre[q].market_address);
                        if p != i as int {
                            assert(self.states@[p] == pre[p]);
                        }
                        if q != i as int {
                            assert(self.states@[q] == pre[q]);
                        }
                    }
                }
                return ;
            }
            i = i + 1;
        }
        self.states.push(state);
    }

    /// The full snapshot, for strategies to scan.
    pub fn read_all(&self) -> (r: &Vec<MarketState>)
        ensures
            r@ == self.states@,
    {
        &self.states
    }

    /// One market's record, if it has ever been polled.
    pub fn get<'a>(&'a self, market: u64) -> (r: Option<&'a MarketState>)
        ensures
            r matches Some(m) ==> spec_find_market(self.states@, market) == Some(*m),
            r is None <==> !spec_has_market(self.states@, market),
    {
        find_market_state(self.states.as_slice(), market)
    }
}

/// A route leg's market is acceptable at validation time: present in the
/// cache, polled recently enough, and not crossed — a crossed book is
/// treated as stale.
pub open spec fn spec_market_valid(states: Seq<MarketState>, market: u64, now: i64) -> bool {
    spec_find_market(states, market) matches Some(st) && now - st.last_update
        <= MAX_MARKET_AGE_SECS && st.spec_healthy()
}

/// The security gates: enabled MEV protection must carry a positive
/// level, and enabled quantum security demands signature verification.
pub open spec fn spec_security_ok(s: Settings) -> bool {
    &&& (s.security.mev_protection.enabled ==> s.security.mev_protection.protection_level >= 1)
    &&& (s.security.quantum_security.enabled
        ==> s.security.transaction_guards.signature_verification)
}

/// The engine's full re-validation verdict on an opportunity: age within
/// the window, every trade leg's market still present, fresh and
/// uncrossed, and the security gates passing.
pub open spec fn spec_opportunity_valid(
    opp: ArbitrageOpportunity,
    states: Seq<MarketState>,
    s: Settings,
    now: i64,
) -> bool {
    &&& now - opp.timestamp <= MAX_OPPORTUNITY_AGE_SECS
    &&& forall|k: int|
        0 <= k < opp.route@.len() && (#[trigger] opp.route@[k]).market != 0 ==> spec_market_valid(
            states,
            opp.route@[k].market,
            now,
        )
    &&& spec_security_ok(s)
}

/// An opportunity older than the engine's window never re-validates.
pub proof fn lemma_stale_opportunity_never_valid(
    opp: ArbitrageOpportunity,
    states: Seq<MarketState>,
    s: Settings,
    now: i64,
)
    requires
        now - opp.timestamp > MAX_OPPORTUNITY_AGE_SECS,
    ensures
        !spec_opportunity_valid(opp, states, s, now),
{
}

/// The orchestrator-owned state: validated settings and the market
/// cache. The network clients and the signing credential stay with the
/// embedding process.
pub struct ArbitrageEngine {
    pub settings: Settings,
    pub market_states: MarketStateCache,
}

impl ArbitrageEngine {
    /// An engine over validated settings; invalid settings are a
    /// startup-fatal configuration error, reported exactly as the
    /// validation rules name it.
    pub fn new(settings: Settings) -> (r: Result<Self, ArbitrageError>)
        ensures
            r is Ok <==> settings.spec_valid(),
            r matches Ok(e) ==> e.settings == settings && e.market_states.states@.len() == 0
                && e.market_states.spec_wf(),
            r is Err ==> r matches Err(ArbitrageError::ConfigError(_)),
    {
        match settings.validate() {
            Ok(()) => Ok(
                ArbitrageEngine { settings, market_states: MarketStateCache::new() },
            ),
            Err(e) => Err(e),
        }
    }

    /// Admit or replace one market's state in the cache: the record is
    /// replaced wholesale when the market is already cached, appended on
    /// its first successful poll, and no other market's record changes.
    pub fn add_market_state(&mut self, state: MarketState) -> (r: Result<(), ArbitrageError>)
        requires
            old(self).market_states.spec_wf(),
            state.last_update >= 0,
        ensures
            final(self).settings == old(self).settings,
            final(self).market_states.spec_wf(),
            r is Ok,
            (exists|k: int|
                0 <= k < old(self).market_states.states@.len() && (#[trigger] old(
                    self,
                ).market_states.states@[k]).market_address == state.market_address) ==> exists|k: int|
                {
                    &&& 0 <= k < old(self).market_states.states@.len()
                    &&& (#[trigger] old(self).market_states.states@[k]).market_address
                        == state.market_address
                    &&& final(self).market_states.states@ == old(
                        self,
                    ).market_states.states@.update(k, state)
                },
            (forall|k: int|
                0 <= k < old(self).market_states.states@.len() ==> (#[trigger] old(
                    self,
                ).market_states.states@[k]).market_address != state.market_address)
                ==> final(self).market_states.states@ == old(self).market_states.states@.push(
                state,
            ),
    {
        self.market_states.refresh(state);
        Ok(())
    }

    /// The markets the configuration allows trading on.
    pub fn get_whitelisted_markets(&self) -> (r: Vec<u64>)
        ensures
            r@ == self.settings.trading.markets.whitelisted_markets@,
    {
        let mut markets: Vec<u64> = Vec::new();
        let n: usize = self.settings.trading.markets.whitelisted_markets.len();
        let mut i: usize = 0;
        while i < n
            invariant
                0 <= i <= n,
                n == self.settings.trading.markets.whitelisted_markets@.len(),
                markets@ == self.settings.trading.markets.whitelisted_markets@.take(i as int),
            decreases n - i,
        {
            markets.push(self.settings.trading.markets.whitelisted_markets[i]);
            proof {
                assert(markets@ =~= self.settings.trading.markets.whitelisted_markets@.take(
                    i as int + 1,
                ));
            }
            i = i + 1;
        }
        proof {
            assert(self.settings.trading.markets.whitelisted_markets@.take(n as int)
                =~= self.settings.trading.markets.whitelisted_markets@);
        }
        markets
    }

    /// The market addresses currently held in the cache, in cache order.
    pub fn collect_market_ids(&self) -> (r: Vec<u64>)
        ensures
            r@.len() == self.market_states.states@.len(),
            forall|i: int|
                0 <= i < r@.len() ==> r@[i] == (#[trigger] self.market_states.states@[i]).market_address,
    {
        let mut ids: Vec<u64> = Vec::new();
        let n: usize = self.market_states.states.len();
        let mut i: usize = 0;
        while i < n
            invariant
                0 <= i <= n,
                n == self.market_states.states@.len(),
                ids@.len() == i,
                forall|k: int|
                    0 <= k < i ==> ids@[k] == (#[trigger] self.market_states.states@[k]).market_address,
            decreases n - i,
        {
            ids.push(self.market_states.states[i].market_address);
            i = i + 1;
        }
        ids
    }

    /// Whether one route leg's market is still acceptable: present,
    /// fresh, and not crossed.
    pub fn validate_market_state(&self, market: u64, now: i64) -> (r: bool)
        requires
            now >= 0,
            self.market_states.spec_wf(),
        ensures
            r == spec_market_valid(self.market_states.states@, market, now),
    {
        proof {
            lemma_find_market_some(self.market_states.states@, market);
        }
        match self.market_states.get(market) {
            Some(st) => {
                proof {
                    let i = choose|i: int|
                        0 <= i < self.market_states.states@.len()
                            && #[trigger] self.market_states.states@[i] == *st;
                    assert(self.market_states.states@[i].last_update >= 0);
                }
                now - st.last_update <= MAX_MARKET_AGE_SECS && st.is_healthy()
            },
            None => false,
        }
    }

    /// The MEV and quantum security gates, from configuration alone.
    pub fn check_security_constraints(&self, _opportunity: &ArbitrageOpportunity) -> (r: Result<
        bool,
        ArbitrageError,
    >)
        ensures
            r matches Ok(b) && b == spec_security_ok(self.settings),
    {
        if self.settings.security.mev_protection.enabled
            && self.settings.security.mev_protection.protection_level < 1 {
            return Ok(false);
        }
        if self.settings.security.quantum_security.enabled
            && !self.settings.security.transaction_guards.signature_verification {
            return Ok(false);
        }
        Ok(true)
    }

    /// The engine's re-validation gate: opportunity age, per-leg market
    /// staleness, and the security constraints. An opportunity older
    /// than the window is always rejected.
    pub fn validate_opportunity(&self, opportunity: &ArbitrageOpportunity, now: i64) -> (r: Result<
        bool,
        ArbitrageError,
    >)
        requires
            opportunity.timestamp >= 0,
            now >= 0,
            self.market_states.spec_wf(),
        ensures
            r matches Ok(b) && b == spec_opportunity_valid(
                *opportunity,
                self.market_states.states@,
                self.settings,
                now,
            ),
            r matches Ok(b) ==> (now - opportunity.timestamp > MAX_OPPORTUNITY_AGE_SECS ==> !b),
    {
        if now - opportunity.timestamp > MAX_OPPORTUNITY_AGE_SECS {
            return Ok(false);
        }
        let route_len: usize = opportunity.route.len();
        let mut k: usize = 0;
        while k < route_len
            invariant
                0 <= k <= route_len,
                route_len == opportunity.route@.len(),
                now >= 0,
                self.market_states.spec_wf(),
                forall|t: int|
                    0 <= t < k && (#[trigger] opportunity.route@[t]).market != 0
                        ==> spec_market_valid(
                        self.market_states.states@,
                        opportunity.route@[t].market,
                        now,
                    ),
            decreases route_len - k,
        {
            let step_market: u64 = opportunity.route[k].market;
            if step_market != 0 {
                if !self.validate_market_state(step_market, now) {
                    return Ok(false);
                }
            }
            k = k + 1;
        }
        let security_ok: bool = match self.check_security_constraints(opportunity) {
            Ok(b) => b,
            Err(e) => {
                return Err(e);
            },
        };
        if !security_ok {
            return Ok(false);
        }
        Ok(true)
    }

    /// The combined validating-and-scoring gate a candidate must pass
    /// before assembly: re-validation and the profitability verdict. It
    /// fails exactly when a valid opportunity's route cannot be priced
    /// against the snapshot.
    pub fn approve_opportunity(&self, opportunity: &ArbitrageOpportunity, now: i64) -> (r: Result<
        bool,
        ArbitrageError,
    >)
        requires
            opportunity.timestamp >= 0,
            now >= 0,
            self.market_states.spec_wf(),
            opportunity.route@.len() <= MAX_ROUTE_LEGS,
        ensures
            r matches Ok(b) ==> b == (spec_opportunity_valid(
                *opportunity,
                self.market_states.states@,
                self.settings,
                now,
            ) && spec_profitable(
                *opportunity,
                self.market_states.states@,
                self.settings,
            ) == Some(true)),
            r matches Ok(b) ==> (now - opportunity.timestamp > MAX_OPPORTUNITY_AGE_SECS ==> !b),
            r is Err <==> (spec_opportunity_valid(
                *opportunity,
                self.market_states.states@,
                self.settings,
                now,
            ) && spec_profitable(*opportunity, self.market_states.states@, self.settings) is None),
            r matches Err(e) ==> (e matches ArbitrageError::MarketError(m) && (m@
                == "Market state not found"@ || m@ == "Invalid trade price"@)),
    {
        let valid: bool = match self.validate_opportunity(opportunity, now) {
            Ok(b) => b,
            Err(e) => {
                return Err(e);
            },
        };
        if !valid {
            return Ok(false);
        }
        let calculator = ProfitCalculator::new(self.settings.clone());
        proof {
            lemma_profitable_depends_on_read_fields(
                *opportunity,
                self.market_states.states@,
                calculator.settings,
                self.settings,
            );
        }
        match calculator.is_profitable(opportunity, self.market_states.read_all().as_slice()) {
            Ok(b) => Ok(b),
            Err(e) => Err(e),
        }
    }

    /// The terminal record of one execution attempt, from the outcomes
    /// of simulation, submission and confirmation. A transaction that
    /// fails simulation is never submitted; a submission or confirmation
    /// failure is reported, never retried here.
    pub fn summarize_execution(
        &self,
        opportunity: &ArbitrageOpportunity,
        simulation_passed: bool,
        signature: Option<String>,
        confirmed: bool,
        execution_time_ms: u64,
    ) -> (r: Result<ExecutionResult, ArbitrageError>)
        ensures
            !simulation_passed ==> (r matches Ok(res) && !res.success && res.profit_realized
                is None && res.transaction_signature is None && (res.error matches Some(m) && m@
                == "Transaction simulation failed"@) && res.execution_time_ms == 0),
            simulation_passed && signature is None ==> (r matches Err(
                ArbitrageError::TransactionError(m),
            ) && m@ == "Transaction submission failed"@),
            simulation_passed && signature is Some && !confirmed ==> (r matches Err(
                ArbitrageError::TransactionError(m),
            ) && m@ == "Transaction confirmation failed"@),
            simulation_passed && confirmed ==> (signature matches Some(sig) ==> (r matches Ok(res)
                && res.success && res.profit_realized == Some(opportunity.estimated_profit)
                && res.error is None && (res.transaction_signature matches Some(s2) && s2@
                == sig@) && res.execution_time_ms == execution_time_ms)),
    {
        if !simulation_passed {
            return Ok(
                ExecutionResult {
                    success: false,
                    profit_realized: None,
                    error: Some("Transaction simulation failed".to_owned()),
                    transaction_signature: None,
                    execution_time_ms: 0,
                },
            );
        }
        let sig: String = match signature {
            Some(s) => s,
            None => {
                return Err(
                    ArbitrageError::TransactionError("Transaction submission failed".to_owned()),
                );
            },
        };
        if !confirmed {
            return Err(
                ArbitrageError::TransactionError("Transaction confirmation failed".to_owned()),
            );
        }
        Ok(
            ExecutionResult {
                success: true,
                profit_realized: Some(opportunity.estimated_profit),
                error: None,
                transaction_signature: Some(sig),
                execution_time_ms,
            },
        )
    }
}

/// Profitability reads only the trading thresholds and MEV flag, so a
/// settings value equal on those fields yields the same verdict.
proof fn lemma_profitable_depends_on_read_fields(
    opp: ArbitrageOpportunity,
    states: Seq<MarketState>,
    a: Settings,
    b: Settings,
)
    requires
        a.trading.risk == b.trading.risk,
        a.trading.execution.min_profit_threshold == b.trading.execution.min_profit_threshold,
        a.trading.execution.max_position_size == b.trading.execution.max_position_size,
        a.security.mev_protection == b.security.mev_protection,
    ensures
        spec_profitable(opp, states, a) == spec_profitable(opp, states, b),
{
    lemma_route_result_depends_on_read_fields(
        opp.route@,
        states,
        a,
        b,
        opp.required_amount as int,
    );
}

proof fn lemma_route_result_depends_on_read_fields(
    route: Seq<crate::types::TradeStep>,
    states: Seq<MarketState>,
    a: Settings,
    b: Settings,
    input: int,
)
    requires
        a.trading.risk == b.trading.risk,
    ensures
        crate::profit::spec_route_result(route, states, a, input)
            == crate::profit::spec_route_result(route, states, b, input),
    decreases route.len(),
{
    if route.len() > 0 {
        let step = route[0];
        if step.market == 0 {
            lemma_route_result_depends_on_read_fields(route.skip(1), states, a, b, input);
        } else if spec_find_market(states, step.market) is Some && step.price != 0 {
            let m = spec_find_market(states, step.market)->Some_0;
            let pr = crate::profit::spec_step_profit(step, m, input, a);
            lemma_route_result_depends_on_read_fields(route.skip(1), states, a, b, pr.1);
        }
    }
}

} // verus!
