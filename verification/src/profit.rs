//! Profit, fee, slippage and gas model gating execution.
//!
//! Every quantity is fixed-point: prices in micro quote-units
//! (`PRICE_SCALE`), rates in parts per million (`RATE_SCALE`). The
//! slippage model is deliberately simple — linear in trade size against a
//! liquidity baseline, capped at the configured tolerance — and the
//! monotonicity and cap are proved, not just the formula.

use vstd::prelude::*;
use vstd::arithmetic::div_mod::{lemma_div_is_ordered, lemma_div_pos_is_pos, lemma_fundamental_div_mod};
use vstd::arithmetic::mul::{lemma_mul_inequality, lemma_mul_nonnegative, lemma_mul_upper_bound};
use crate::math::{int_min, lemma_mul_div_mono, min_u64, mul_div_u64, mul_div_wide, sat_u64};
use crate::settings::Settings;
use crate::types::{
    ArbitrageError, ArbitrageOpportunity, MarketState, TradeSide, TradeStep, find_market_state,
    spec_find_market, spec_has_market, PRICE_SCALE, RATE_SCALE,
};

verus! {

/// Per-trade venue fee, in parts per million.
pub const TRADING_FEE_PPM: u64 = 3000;

/// Borrowed-capital fee, in parts per million of the borrowed amount.
pub const FLASH_LOAN_FEE_PPM: u64 = 900;

/// Protocol fee applied to the deployed amount, in parts per million.
pub const PROTOCOL_FEE_PPM: u64 = 1000;

/// Liquidity baseline of the linear slippage model, in base units.
pub const BASE_LIQUIDITY: u64 = 100000;

/// Slippage sensitivity relative to the baseline, in parts per million.
pub const SLIPPAGE_FACTOR_PPM: u64 = 100000;

/// Fixed transaction cost, in lamport-denominated gas units.
pub const GAS_BASE_COST: u64 = 5000;

/// Additional gas per route instruction.
pub const GAS_PER_INSTRUCTION: u64 = 1000;

/// Additional gas when a borrow leg is present.
pub const GAS_FLASH_LOAN_EXTRA: u64 = 2000;

/// Additional gas for MEV-protection instructions.
pub const GAS_MEV_EXTRA: u64 = 1000;

/// Hard cap on route length: one atomic transaction holds at most this
/// many legs, which also bounds all fixed-point accumulation.
pub const MAX_ROUTE_LEGS: usize = 16;

/// Slippage estimate in parts per million: linear in trade size against
/// the liquidity baseline, capped at the configured tolerance.
pub open spec fn spec_slippage_ppm(amount: int, s: Settings) -> int {
    int_min(
        amount * SLIPPAGE_FACTOR_PPM as int / BASE_LIQUIDITY as int,
        s.trading.risk.slippage_tolerance as int,
    )
}

/// Output of one buy leg: `(profit, base amount out)`. The slippage
/// surcharge is capped at one whole price (doubling), as the sell-side
/// discount is capped at the whole price.
pub open spec fn spec_buy_step(input: int, price: int, m: MarketState, s: Settings) -> (int, int) {
    let slip = int_min(spec_slippage_ppm(input, s), RATE_SCALE as int);
    let eff = sat_u64(price * (RATE_SCALE as int + slip) / RATE_SCALE as int);
    let base_out = sat_u64(input * PRICE_SCALE as int / eff);
    let out_after = sat_u64(base_out * (RATE_SCALE - TRADING_FEE_PPM) as int / RATE_SCALE as int);
    let profit = out_after * m.best_bid as int / PRICE_SCALE as int - input;
    (profit, out_after)
}

/// Output of one sell leg: `(profit, quote value out)`.
pub open spec fn spec_sell_step(input: int, price: int, m: MarketState, s: Settings) -> (int, int) {
    let slip = int_min(spec_slippage_ppm(input, s), RATE_SCALE as int);
    let eff = sat_u64(price * (RATE_SCALE as int - slip) / RATE_SCALE as int);
    let quote_out = sat_u64(input * eff / PRICE_SCALE as int);
    let out_after = sat_u64(quote_out * (RATE_SCALE - TRADING_FEE_PPM) as int / RATE_SCALE as int);
    let profit = out_after - input * m.best_ask as int / PRICE_SCALE as int;
    (profit, out_after)
}

/// Profit and carried amount of one trade leg against its market state.
pub open spec fn spec_step_profit(step: TradeStep, m: MarketState, input: int, s: Settings) -> (
    int,
    int,
) {
    match step.side {
        TradeSide::Buy => spec_buy_step(input, step.price as int, m, s),
        TradeSide::Sell => spec_sell_step(input, step.price as int, m, s),
    }
}

/// Magnitude bound on any single leg's profit.
pub open spec fn spec_step_profit_bound() -> int {
    u64::MAX as int * u64::MAX as int / PRICE_SCALE as int + u64::MAX as int
}

/// Walks a route leg by leg, threading the carried amount. Legs bound to
/// a lending protocol (market id 0) carry the amount through unchanged;
/// a trade leg whose market is missing from the snapshot, or whose price
/// is zero, makes the route unpriceable (`None`).
pub open spec fn spec_route_result(
    route: Seq<TradeStep>,
    states: Seq<MarketState>,
    s: Settings,
    input: int,
) -> Option<(int, int)>
    decreases route.len(),
{
    if route.len() == 0 {
        Some((0, input))
    } else {
        let step = route[0];
        if step.market == 0 {
            spec_route_result(route.skip(1), states, s, input)
        } else if spec_find_market(states, step.market) is None {
            None
        } else if step.price == 0 {
            None
        } else {
            let m = spec_find_market(states, step.market)->Some_0;
            let pr = spec_step_profit(step, m, input, s);
            match spec_route_result(route.skip(1), states, s, pr.1) {
                Option::None => None,
                Option::Some(rest) => Some((pr.0 + rest.0, rest.1)),
            }
        }
    }
}

/// Sum of per-leg trading fees over a route.
pub open spec fn spec_trading_fees(route: Seq<TradeStep>) -> int
    decreases route.len(),
{
    if route.len() == 0 {
        0
    } else {
        route[0].amount as int * TRADING_FEE_PPM as int / RATE_SCALE as int + spec_trading_fees(
            route.skip(1),
        )
    }
}

/// Aggregate fees: trading fees per leg, the borrowed-capital fee when
/// the route length indicates a borrow, and the protocol fee.
pub open spec fn spec_total_fees(route: Seq<TradeStep>, required: int) -> int {
    spec_trading_fees(route) + (if route.len() > 2 {
        required * FLASH_LOAN_FEE_PPM as int / RATE_SCALE as int
    } else {
        0
    }) + required * PROTOCOL_FEE_PPM as int / RATE_SCALE as int
}

/// Fixed-plus-per-instruction gas estimate.
pub open spec fn spec_gas_costs(route_len: int, mev_enabled: bool) -> int {
    GAS_BASE_COST as int + route_len * GAS_PER_INSTRUCTION as int + (if route_len > 2 {
        GAS_FLASH_LOAN_EXTRA as int
    } else {
        0
    }) + (if mev_enabled {
        GAS_MEV_EXTRA as int
    } else {
        0
    })
}

/// Net profit of an opportunity: the route walk minus fees and gas;
/// `None` when the route cannot be priced against the snapshot.
pub open spec fn spec_total_profit(
    opp: ArbitrageOpportunity,
    states: Seq<MarketState>,
    s: Settings,
) -> Option<int> {
    match spec_route_result(opp.route@, states, s, opp.required_amount as int) {
        Option::None => None,
        Option::Some(pr) => Some(
            pr.0 - spec_total_fees(opp.route@, opp.required_amount as int) - spec_gas_costs(
                opp.route@.len() as int,
                s.security.mev_protection.enabled,
            ),
        ),
    }
}

/// Risk-adjusted floor: profit per unit deployed must not fall below the
/// configured loss threshold (stated without division, so a zero amount
/// rejects exactly the loss-making opportunities).
pub open spec fn spec_risk_ratio_ok(profit: int, s: Settings, amount: int) -> bool {
    profit * RATE_SCALE as int >= s.trading.risk.max_loss_threshold as int * amount
}

/// The combined profitability gate: net profit above the configured
/// floor, the position within its cap, and an acceptable risk ratio.
pub open spec fn spec_profitable(
    opp: ArbitrageOpportunity,
    states: Seq<MarketState>,
    s: Settings,
) -> Option<bool> {
    match spec_total_profit(opp, states, s) {
        Option::None => None,
        Option::Some(tp) => Some(
            tp >= s.trading.execution.min_profit_threshold as int
                && opp.required_amount <= s.trading.execution.max_position_size
                && spec_risk_ratio_ok(tp, s, opp.required_amount as int),
        ),
    }
}

/// Slippage never decreases with trade size and never exceeds the
/// configured tolerance.
pub proof fn lemma_slippage_monotone_capped(a1: int, a2: int, s: Settings)
    requires
        0 <= a1 <= a2,
    ensures
        spec_slippage_ppm(a1, s) <= spec_slippage_ppm(a2, s),
        spec_slippage_ppm(a2, s) <= s.trading.risk.slippage_tolerance as int,
{
    lemma_mul_div_mono(a1, a2, SLIPPAGE_FACTOR_PPM as int, BASE_LIQUIDITY as int);
}

/// An opportunity whose required amount exceeds the position cap is never
/// profitable, regardless of profit magnitude.
pub proof fn lemma_oversized_position_never_profitable(
    opp: ArbitrageOpportunity,
    states: Seq<MarketState>,
    s: Settings,
)
    requires
        opp.required_amount > s.trading.execution.max_position_size,
    ensures
        spec_profitable(opp, states, s) matches Some(b) ==> !b,
{
}

pub struct ProfitCalculator {
    pub settings: Settings,
}

/// One accumulation step keeps the running total inside the growing
/// symmetric bound.
proof fn lemma_acc_step(acc: int, p: int, i: int, b: int)
    requires
        -(i * b) <= acc <= i * b,
        -b <= p <= b,
        i >= 0,
        b >= 0,
    ensures
        -((i + 1) * b) <= acc + p <= (i + 1) * b,
{
    assert(-((i + 1) * b) <= acc + p <= (i + 1) * b) by (nonlinear_arith)
        requires
            -(i * b) <= acc <= i * b,
            -b <= p <= b,
            i >= 0,
            b >= 0,
    ;
}

/// Each leg's profit is bounded in magnitude and its carried amount fits
/// a `u64`.
proof fn lemma_step_profit_bounds(step: TradeStep, m: MarketState, input: int, s: Settings)
    requires
        0 <= input <= u64::MAX as int,
        step.price > 0,
    ensures
        -spec_step_profit_bound() <= spec_step_profit(step, m, input, s).0
            <= spec_step_profit_bound(),
        0 <= spec_step_profit(step, m, input, s).1 <= u64::MAX as int,
{
    let slip = spec_slippage_ppm(input, s);
    assert(slip >= 0) by {
        lemma_mul_nonnegative(input, SLIPPAGE_FACTOR_PPM as int);
        lemma_div_pos_is_pos(input * SLIPPAGE_FACTOR_PPM as int, BASE_LIQUIDITY as int);
    }
    match step.side {
        TradeSide::Buy => {
            let price = step.price as int;
            let slip2 = int_min(slip, RATE_SCALE as int);
            let eff = sat_u64(price * (RATE_SCALE as int + slip2) / RATE_SCALE as int);
            assert(eff >= 1) by {
                let mult = RATE_SCALE as int + slip2;
                lemma_mul_inequality(RATE_SCALE as int, mult, price);
                vstd::arithmetic::mul::lemma_mul_is_commutative(price, mult);
                lemma_div_is_ordered(price * RATE_SCALE as int, price * mult, RATE_SCALE as int);
                vstd::arithmetic::div_mod::lemma_div_multiples_vanish(price, RATE_SCALE as int);
            }
            let base_out = sat_u64(input * PRICE_SCALE as int / eff);
            assert(base_out >= 0) by {
                lemma_mul_nonnegative(input, PRICE_SCALE as int);
                lemma_div_pos_is_pos(input * PRICE_SCALE as int, eff);
            }
            let out_after = sat_u64(
                base_out * (RATE_SCALE - TRADING_FEE_PPM) as int / RATE_SCALE as int,
            );
            assert(out_after >= 0) by {
                lemma_mul_nonnegative(base_out, (RATE_SCALE - TRADING_FEE_PPM) as int);
                lemma_div_pos_is_pos(
                    base_out * (RATE_SCALE - TRADING_FEE_PPM) as int,
                    RATE_SCALE as int,
                );
            }
            assert(0 <= out_after <= u64::MAX as int);
            let gross = out_after * m.best_bid as int / PRICE_SCALE as int;
            assert(0 <= gross <= u64::MAX as int * u64::MAX as int / PRICE_SCALE as int) by {
                lemma_mul_nonnegative(out_after, m.best_bid as int);
                lemma_div_pos_is_pos(out_after * m.best_bid as int, PRICE_SCALE as int);
                lemma_mul_upper_bound(out_after, u64::MAX as int, m.best_bid as int, u64::MAX as int);
                lemma_div_is_ordered(
                    out_after * m.best_bid as int,
                    u64::MAX as int * u64::MAX as int,
                    PRICE_SCALE as int,
                );
            }
        },
        TradeSide::Sell => {
            let price = step.price as int;
            let slip2 = int_min(slip, RATE_SCALE as int);
            let eff = sat_u64(price * (RATE_SCALE as int - slip2) / RATE_SCALE as int);
            assert(price * (RATE_SCALE as int - slip2) >= 0) by {
                lemma_mul_nonnegative(price, RATE_SCALE as int - slip2);
            }
            assert(eff >= 0) by {
                lemma_div_pos_is_pos(price * (RATE_SCALE as int - slip2), RATE_SCALE as int);
            }
            let quote_out = sat_u64(input * eff / PRICE_SCALE as int);
            assert(quote_out >= 0) by {
                lemma_mul_nonnegative(input, eff);
                lemma_div_pos_is_pos(input * eff, PRICE_SCALE as int);
            }
            let out_after = sat_u64(
                quote_out * (RATE_SCALE - TRADING_FEE_PPM) as int / RATE_SCALE as int,
            );
            assert(out_after >= 0) by {
                lemma_mul_nonnegative(quote_out, (RATE_SCALE - TRADING_FEE_PPM) as int);
                lemma_div_pos_is_pos(
                    quote_out * (RATE_SCALE - TRADING_FEE_PPM) as int,
                    RATE_SCALE as int,
                );
            }
            let basis = input * m.best_ask as int / PRICE_SCALE as int;
            assert(0 <= basis <= u64::MAX as int * u64::MAX as int / PRICE_SCALE as int) by {
                lemma_mul_nonnegative(input, m.best_ask as int);
                lemma_div_pos_is_pos(input * m.best_ask as int, PRICE_SCALE as int);
                lemma_mul_upper_bound(input, u64::MAX as int, m.best_ask as int, u64::MAX as int);
                lemma_div_is_ordered(
                    input * m.best_ask as int,
                    u64::MAX as int * u64::MAX as int,
                    PRICE_SCALE as int,
                );
            }
        },
    }
}

impl ProfitCalculator {
    pub fn new(settings: Settings) -> (r: Self)
        ensures
            r.settings == settings,
    {
        ProfitCalculator { settings }
    }

    /// Slippage in parts per million for a trade of the given size.
    pub fn calculate_slippage(&self, amount: u64, _market_state: &MarketState) -> (r: Result<
        u64,
        ArbitrageError,
    >)
        ensures
            r matches Ok(v) && v == spec_slippage_ppm(amount as int, self.settings),
    {
        let raw: u64 = mul_div_u64(amount, SLIPPAGE_FACTOR_PPM, BASE_LIQUIDITY);
        let tol: u64 = self.settings.trading.risk.slippage_tolerance;
        proof {
            if amount as int * SLIPPAGE_FACTOR_PPM as int / BASE_LIQUIDITY as int > u64::MAX as int {
                assert(tol <= u64::MAX as int);
            }
        }
        Ok(min_u64(raw, tol))
    }

    fn calculate_buy_profit(&self, input_amount: u64, price: u64, market_state: &MarketState) -> (r:
        (i128, u64))
        requires
            price > 0,
        ensures
            r.0 == spec_buy_step(input_amount as int, price as int, *market_state, self.settings).0,
            r.1 == spec_buy_step(input_amount as int, price as int, *market_state, self.settings).1,
    {
        let slippage_raw: u64 = match self.calculate_slippage(input_amount, market_state) {
            Ok(v) => v,
            Err(_) => 0,
        };
        let slippage: u64 = min_u64(slippage_raw, RATE_SCALE);
        let effective_price: u64 = mul_div_u64(price, RATE_SCALE + slippage, RATE_SCALE);
        proof {
            assert(effective_price as int >= 1) by {
                let mult = RATE_SCALE as int + slippage as int;
                lemma_mul_inequality(RATE_SCALE as int, mult, price as int);
                vstd::arithmetic::mul::lemma_mul_is_commutative(price as int, mult);
                lemma_div_is_ordered(
                    price as int * RATE_SCALE as int,
                    price as int * mult,
                    RATE_SCALE as int,
                );
                vstd::arithmetic::div_mod::lemma_div_multiples_vanish(
                    price as int,
                    RATE_SCALE as int,
                );
            }
        }
        let base_output: u64 = mul_div_u64(input_amount, PRICE_SCALE, effective_price);
        let output_after_fees: u64 = mul_div_u64(
            base_output,
            RATE_SCALE - TRADING_FEE_PPM,
            RATE_SCALE,
        );
        let gross: i128 = mul_div_wide(output_after_fees, market_state.best_bid, PRICE_SCALE);
        let profit: i128 = gross - input_amount as i128;
        (profit, output_after_fees)
    }

    fn calculate_sell_profit(&self, input_amount: u64, price: u64, market_state: &MarketState) -> (r:
        (i128, u64))
        ensures
            r.0 == spec_sell_step(input_amount as int, price as int, *market_state, self.settings).0,
            r.1 == spec_sell_step(input_amount as int, price as int, *market_state, self.settings).1,
    {
        let slippage_raw: u64 = match self.calculate_slippage(input_amount, market_state) {
            Ok(v) => v,
            Err(_) => 0,
        };
        let slippage: u64 = min_u64(slippage_raw, RATE_SCALE);
        let effective_price: u64 = mul_div_u64(price, RATE_SCALE - slippage, RATE_SCALE);
        let quote_out: u64 = mul_div_u64(input_amount, effective_price, PRICE_SCALE);
        let output_after_fees: u64 = mul_div_u64(quote_out, RATE_SCALE - TRADING_FEE_PPM, RATE_SCALE);
        let basis: i128 = mul_div_wide(input_amount, market_state.best_ask, PRICE_SCALE);
        let profit: i128 = output_after_fees as i128 - basis;
        (profit, output_after_fees)
    }

    /// Profit and carried amount for one route leg, resolved against the
    /// snapshot. Fails exactly when the leg's market is missing or its
    /// price is zero.
    pub fn calculate_step_profit(
        &self,
        step: &TradeStep,
        input_amount: u64,
        market_states: &[MarketState],
    ) -> (r: Result<(i128, u64), ArbitrageError>)
        ensures
            !spec_has_market(market_states@, step.market) ==> (r matches Err(
                ArbitrageError::MarketError(m),
            ) && m@ == "Market state not found"@),
            spec_has_market(market_states@, step.market) && step.price == 0 ==> (r matches Err(
                ArbitrageError::MarketError(m),
            ) && m@ == "Invalid trade price"@),
            spec_has_market(market_states@, step.market) && step.price > 0 ==> (r matches Ok(pr)
                && (pr.0 as int, pr.1 as int) == spec_step_profit(
                *step,
                spec_find_market(market_states@, step.market)->Some_0,
                input_amount as int,
                self.settings,
            )),
    {
        let market_state: &MarketState = match find_market_state(market_states, step.market) {
            Some(m) => m,
            None => {
                return Err(ArbitrageError::MarketError("Market state not found".to_owned()));
            },
        };
        if step.price == 0 {
            return Err(ArbitrageError::MarketError("Invalid trade price".to_owned()));
        }
        let (profit, output) = match step.side {
            TradeSide::Buy => self.calculate_buy_profit(input_amount, step.price, market_state),
            TradeSide::Sell => self.calculate_sell_profit(input_amount, step.price, market_state),
        };
        Ok((profit, output))
    }

    /// Aggregate fees of an opportunity.
    pub fn calculate_total_fees(&self, opportunity: &ArbitrageOpportunity) -> (r: Result<
        u64,
        ArbitrageError,
    >)
        requires
            opportunity.route@.len() <= MAX_ROUTE_LEGS,
        ensures
            r matches Ok(v) && v == spec_total_fees(
                opportunity.route@,
                opportunity.required_amount as int,
            ),
    {
        let route_len: usize = opportunity.route.len();
        let mut total_fees: u64 = 0;
        let mut i: usize = 0;
        proof {
            assert(opportunity.route@.skip(0) =~= opportunity.route@);
        }
        while i < route_len
            invariant
                0 <= i <= route_len,
                route_len == opportunity.route@.len(),
                route_len <= MAX_ROUTE_LEGS,
                total_fees as int + spec_trading_fees(opportunity.route@.skip(i as int))
                    == spec_trading_fees(opportunity.route@),
                total_fees as int <= i as int * 55340232221128654,
            decreases route_len - i,
        {
            let step_fee: u64 = mul_div_u64(opportunity.route[i].amount, TRADING_FEE_PPM, RATE_SCALE);
            proof {
                let rest = opportunity.route@.skip(i as int);
                assert(rest[0] == opportunity.route@[i as int]);
                assert(rest.skip(1) =~= opportunity.route@.skip(i as int + 1));
                lemma_mul_div_mono(
                    opportunity.route@[i as int].amount as int,
                    u64::MAX as int,
                    TRADING_FEE_PPM as int,
                    RATE_SCALE as int,
                );
                assert(u64::MAX as int * TRADING_FEE_PPM as int == 55340232221128654845000);
                assert(step_fee as int == opportunity.route@[i as int].amount as int
                    * TRADING_FEE_PPM as int / RATE_SCALE as int);
                lemma_acc_step(total_fees as int, step_fee as int, i as int, 55340232221128654);
            }
            total_fees = total_fees + step_fee;
            i = i + 1;
        }
        proof {
            assert(opportunity.route@.skip(route_len as int).len() == 0);
        }
        let flash_fee: u64 = if route_len > 2 {
            mul_div_u64(opportunity.required_amount, FLASH_LOAN_FEE_PPM, RATE_SCALE)
        } else {
            0
        };
        let protocol_fee: u64 = mul_div_u64(opportunity.required_amount, PROTOCOL_FEE_PPM, RATE_SCALE);
        proof {
            lemma_mul_div_mono(
                opportunity.required_amount as int,
                u64::MAX as int,
                FLASH_LOAN_FEE_PPM as int,
                RATE_SCALE as int,
            );
            lemma_mul_div_mono(
                opportunity.required_amount as int,
                u64::MAX as int,
                PROTOCOL_FEE_PPM as int,
                RATE_SCALE as int,
            );
            assert(u64::MAX as int * FLASH_LOAN_FEE_PPM as int == 16602069666338596453500);
            assert(u64::MAX as int * PROTOCOL_FEE_PPM as int == 18446744073709551615000);
        }
        Ok(total_fees + flash_fee + protocol_fee)
    }

    /// Fixed-plus-per-instruction gas estimate for an opportunity.
    pub fn estimate_gas_costs(&self, opportunity: &ArbitrageOpportunity) -> (r: Result<
        u64,
        ArbitrageError,
    >)
        requires
            opportunity.route@.len() <= MAX_ROUTE_LEGS,
        ensures
            r matches Ok(v) && v == spec_gas_costs(
                opportunity.route@.len() as int,
                self.settings.security.mev_protection.enabled,
            ),
    {
        let route_len: usize = opportunity.route.len();
        let mut total_cost: u64 = GAS_BASE_COST;
        total_cost = total_cost + (route_len as u64) * GAS_PER_INSTRUCTION;
        if route_len > 2 {
            total_cost = total_cost + GAS_FLASH_LOAN_EXTRA;
        }
        if self.settings.security.mev_protection.enabled {
            total_cost = total_cost + GAS_MEV_EXTRA;
        }
        Ok(total_cost)
    }

    /// Net profit of the opportunity against the snapshot, in micro
    /// quote-units: the route walk minus fees and gas.
    pub fn calculate_total_profit(
        &self,
        opportunity: &ArbitrageOpportunity,
        market_states: &[MarketState],
    ) -> (r: Result<i128, ArbitrageError>)
        requires
            opportunity.route@.len() <= MAX_ROUTE_LEGS,
        ensures
            r matches Ok(p) ==> spec_total_profit(*opportunity, market_states@, self.settings)
                == Some(p as int),
            r is Err <==> spec_total_profit(*opportunity, market_states@, self.settings) is None,
            r matches Err(e) ==> (e matches ArbitrageError::MarketError(m) && (m@
                == "Market state not found"@ || m@ == "Invalid trade price"@)),
    {
        let route_len: usize = opportunity.route.len();
        let mut total_profit: i128 = 0;
        let mut current_amount: u64 = opportunity.required_amount;
        let mut i: usize = 0;
        proof {
            assert(opportunity.route@.skip(0) =~= opportunity.route@);
        }
        while i < route_len
            invariant
                0 <= i <= route_len,
                route_len == opportunity.route@.len(),
                route_len <= MAX_ROUTE_LEGS,
                -(i as int) * 1298074214633706907132624082305024 <= total_profit as int <= (
                i as int) * 1298074214633706907132624082305024,
                spec_route_result(
                    opportunity.route@,
                    market_states@,
                    self.settings,
                    opportunity.required_amount as int,
                ) == (match spec_route_result(
                    opportunity.route@.skip(i as int),
                    market_states@,
                    self.settings,
                    current_amount as int,
                ) {
                    Option::None => Option::<(int, int)>::None,
                    Option::Some(pr) => Option::Some(
                        (total_profit as int + pr.0, pr.1),
                    ),
                }),
            decreases route_len - i,
        {
            let step: &TradeStep = &opportunity.route[i];
            proof {
                let rest = opportunity.route@.skip(i as int);
                assert(rest[0] == opportunity.route@[i as int]);
                assert(rest.skip(1) =~= opportunity.route@.skip(i as int + 1));
                crate::types::lemma_find_market_some(market_states@, step.market);
            }
            if step.market != 0 {
                match self.calculate_step_profit(step, current_amount, market_states) {
                    Ok((profit, new_amount)) => {
                        proof {
                            let m = spec_find_market(market_states@, step.market)->Some_0;
                            lemma_step_profit_bounds(
                                *step,
                                m,
                                current_amount as int,
                                self.settings,
                            );
                            assert(spec_step_profit_bound()
                                <= 1298074214633706907132624082305024);
                            lemma_acc_step(
                                total_profit as int,
                                profit as int,
                                i as int,
                                1298074214633706907132624082305024,
                            );
                        }
                        total_profit = total_profit + profit;
                        current_amount = new_amount;
                    },
                    Err(e) => {
                        return Err(e);
                    },
                }
            }
            i = i + 1;
        }
        proof {
            assert(opportunity.route@.skip(route_len as int).len() == 0);
        }
        let fees: u64 = match self.calculate_total_fees(opportunity) {
            Ok(v) => v,
            Err(e) => {
                return Err(e);
            },
        };
        let gas_costs: u64 = match self.estimate_gas_costs(opportunity) {
            Ok(v) => v,
            Err(e) => {
                return Err(e);
            },
        };
        Ok(total_profit - fees as i128 - gas_costs as i128)
    }

    fn validate_risk_parameters(&self, opportunity: &ArbitrageOpportunity, profit: i128) -> (r:
        Result<bool, ArbitrageError>)
        ensures
            r matches Ok(b) && b == (opportunity.required_amount
                <= self.settings.trading.execution.max_position_size && spec_risk_ratio_ok(
                profit as int,
                self.settings,
                opportunity.required_amount as int,
            )),
    {
        if opportunity.required_amount > self.settings.trading.execution.max_position_size {
            return Ok(false);
        }
        Ok(self.risk_ratio_acceptable(profit, opportunity.required_amount))
    }

    /// Whether `profit / amount >= max_loss_threshold`, stated by
    /// cross-multiplication so that no division is needed.
    fn risk_ratio_acceptable(&self, profit: i128, amount: u64) -> (r: bool)
        ensures
            r == spec_risk_ratio_ok(profit as int, self.settings, amount as int),
    {
        let threshold: i64 = self.settings.trading.risk.max_loss_threshold;
        proof {
            assert(threshold as int * amount as int <= i128::MAX as int && i128::MIN as int
                <= threshold as int * amount as int) by (nonlinear_arith)
                requires
                    -0x8000_0000_0000_0000 <= (threshold as int) < 0x8000_0000_0000_0000,
                    0 <= (amount as int) < 0x1_0000_0000_0000_0000,
            ;
        }
        let rhs: i128 = (threshold as i128) * (amount as i128);
        let cutoff: i128 = i128::MAX / 1000000;
        proof {
            lemma_fundamental_div_mod(i128::MAX as int, 1000000);
        }
        if profit > cutoff {
            proof {
                assert(profit as int * RATE_SCALE as int > i128::MAX as int) by (nonlinear_arith)
                    requires
                        profit as int >= i128::MAX as int / 1000000 + 1,
                        i128::MAX as int == 1000000 * (i128::MAX as int / 1000000) + i128::MAX
                            as int % 1000000,
                        0 <= (i128::MAX as int % 1000000) < 1000000,
                        RATE_SCALE as int == 1000000,
                ;
            }
            true
        } else if profit < -cutoff {
            proof {
                assert(profit as int * (RATE_SCALE as int) < -(i128::MAX as int))
                    by (nonlinear_arith)
                    requires
                        profit as int <= -(i128::MAX as int / 1000000) - 1,
                        i128::MAX as int == 1000000 * (i128::MAX as int / 1000000) + i128::MAX
                            as int % 1000000,
                        0 <= (i128::MAX as int % 1000000) < 1000000,
                        RATE_SCALE as int == 1000000,
                ;
                assert(rhs as int >= -(i128::MAX as int)) by (nonlinear_arith)
                    requires
                        -0x8000_0000_0000_0000 <= (threshold as int) < 0x8000_0000_0000_0000,
                        0 <= (amount as int) < 0x1_0000_0000_0000_0000,
                        rhs as int == threshold as int * amount as int,
                ;
            }
            false
        } else {
            proof {
                assert(i128::MIN as int <= profit as int * RATE_SCALE as int <= i128::MAX as int)
                    by (nonlinear_arith)
                    requires
                        -(i128::MAX as int / 1000000) <= profit as int <= i128::MAX as int
                            / 1000000,
                        i128::MAX as int == 1000000 * (i128::MAX as int / 1000000) + i128::MAX
                            as int % 1000000,
                        0 <= (i128::MAX as int % 1000000) < 1000000,
                        i128::MIN as int == -i128::MAX as int - 1,
                        RATE_SCALE as int == 1000000,
                ;
            }
            let lhs: i128 = profit * (RATE_SCALE as i128);
            lhs >= rhs
        }
    }

    /// The three-way profitability gate. A silent `false` is the expected
    /// verdict for an unattractive opportunity; an error means the route
    /// could not be priced at all.
    pub fn is_profitable(
        &self,
        opportunity: &ArbitrageOpportunity,
        market_states: &[MarketState],
    ) -> (r: Result<bool, ArbitrageError>)
        requires
            opportunity.route@.len() <= MAX_ROUTE_LEGS,
        ensures
            r matches Ok(b) ==> spec_profitable(*opportunity, market_states@, self.settings)
                == Some(b),
            r is Err <==> spec_profitable(*opportunity, market_states@, self.settings) is None,
            r matches Err(e) ==> (e matches ArbitrageError::MarketError(m) && (m@
                == "Market state not found"@ || m@ == "Invalid trade price"@)),
            r matches Ok(b) ==> (opportunity.required_amount
                > self.settings.trading.execution.max_position_size ==> !b),
    {
        let total_profit: i128 = match self.calculate_total_profit(opportunity, market_states) {
            Ok(p) => p,
            Err(e) => {
                return Err(e);
            },
        };
        let min_profit_threshold: i64 = self.settings.trading.execution.min_profit_threshold;
        if total_profit < min_profit_threshold as i128 {
            return Ok(false);
        }
        let risk_ok: bool = match self.validate_risk_parameters(opportunity, total_profit) {
            Ok(b) => b,
            Err(e) => {
                return Err(e);
            },
        };
        if !risk_ok {
            return Ok(false);
        }
        Ok(true)
    }
}

} // verus!
