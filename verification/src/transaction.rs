//! Transaction assembly: turns an accepted opportunity's route into one
//! ordered, atomic instruction sequence — an optional borrow leg first,
//! one instruction group per trade leg, an optional repay leg last.
//!
//! The ordering is load-bearing: the whole sequence is submitted as one
//! atomic unit, and repay must follow every trading leg as borrow must
//! precede them. The venue-specific wire encoding of each instruction is
//! not the core's concern; these values carry exactly what an encoder
//! needs.

use vstd::prelude::*;
use crate::math::mul_div_u64;
use crate::settings::{MevProtectionSettings, Settings};
use crate::types::{
    ArbitrageError, ArbitrageOpportunity, FlashLoanParams, FlashLoanProtocol, TradeSide,
    TradeStep, RATE_SCALE,
};
use crate::profit::FLASH_LOAN_FEE_PPM;

verus! {

/// Compute budget attached by the optimization pass.
pub const OPTIMIZED_COMPUTE_UNITS: u32 = 200000;

/// Priority fee attached by the optimization pass, in lamports.
pub const OPTIMIZED_PRIORITY_FEE: u64 = 1000;

/// One planned instruction of the atomic sequence.
#[derive(Debug, Clone, Copy, PartialEq, Eq, Structural)]
pub enum BuiltInstruction {
    /// Borrow leg: must come before every trade leg.
    FlashLoanBorrow { token: u64, amount: u64, protocol: FlashLoanProtocol },
    MarketBuy { market: u64, amount: u64, price: u64 },
    MarketSell { market: u64, amount: u64, price: u64 },
    /// Post-trade settlement of one market's balances.
    Settlement { market: u64 },
    FrontrunningGuard,
    BackrunningGuard,
    SandwichGuard,
    /// Repay leg: must come after every trade leg.
    FlashLoanRepay { amount: u64 },
    ComputeBudget { units: u32 },
    PriorityFee { lamports: u64 },
}

pub open spec fn spec_is_borrow(i: BuiltInstruction) -> bool {
    i is FlashLoanBorrow
}

pub open spec fn spec_is_repay(i: BuiltInstruction) -> bool {
    i is FlashLoanRepay
}

/// The guard instructions the configured MEV flags call for.
pub open spec fn spec_mev_guards(mev: MevProtectionSettings) -> Seq<BuiltInstruction> {
    (if mev.frontrunning_detection {
        seq![BuiltInstruction::FrontrunningGuard]
    } else {
        Seq::empty()
    }) + (if mev.backrunning_detection {
        seq![BuiltInstruction::BackrunningGuard]
    } else {
        Seq::empty()
    }) + (if mev.sandwich_detection {
        seq![BuiltInstruction::SandwichGuard]
    } else {
        Seq::empty()
    })
}

/// The instruction group of one trade leg: the trade, its settlement,
/// and the configured guards.
pub open spec fn spec_trade_group(step: TradeStep, mev: MevProtectionSettings) -> Seq<
    BuiltInstruction,
> {
    let trade = match step.side {
        TradeSide::Buy => BuiltInstruction::MarketBuy {
            market: step.market,
            amount: step.amount,
            price: step.price,
        },
        TradeSide::Sell => BuiltInstruction::MarketSell {
            market: step.market,
            amount: step.amount,
            price: step.price,
        },
    };
    seq![trade, BuiltInstruction::Settlement { market: step.market }] + (if mev.enabled {
        spec_mev_guards(mev)
    } else {
        Seq::empty()
    })
}

/// Instruction groups of the route's trade legs, in route order. Legs
/// bound to the lending protocol (market id 0) are carried by the
/// borrow and repay instructions instead.
pub open spec fn spec_route_instructions(
    route: Seq<TradeStep>,
    mev: MevProtectionSettings,
) -> Seq<BuiltInstruction>
    decreases route.len(),
{
    if route.len() == 0 {
        Seq::empty()
    } else {
        spec_route_instructions(route.drop_last(), mev) + (if route.last().market != 0 {
            spec_trade_group(route.last(), mev)
        } else {
            Seq::empty()
        })
    }
}

/// Repayment owed for a borrow: principal plus the protocol fee,
/// saturating at the integer limit.
pub open spec fn spec_repayment_amount(required: u64) -> int {
    crate::math::sat_u64(
        required as int + required as int * FLASH_LOAN_FEE_PPM as int / RATE_SCALE as int,
    )
}

/// The full atomic sequence an opportunity assembles into: a borrow leg
/// when the route implies borrowed capital, the trade groups, and the
/// matching repay leg.
pub open spec fn spec_build_instructions(opp: ArbitrageOpportunity, s: Settings) -> Seq<
    BuiltInstruction,
> {
    let borrows = opp.route@.len() > 2;
    (if borrows {
        seq![
            BuiltInstruction::FlashLoanBorrow {
                token: opp.token_pair.base_token.address,
                amount: opp.required_amount,
                protocol: FlashLoanProtocol::Solend,
            },
        ]
    } else {
        Seq::empty()
    }) + spec_route_instructions(opp.route@, s.security.mev_protection) + (if borrows {
        seq![
            BuiltInstruction::FlashLoanRepay {
                amount: spec_repayment_amount(opp.required_amount) as u64,
            },
        ]
    } else {
        Seq::empty()
    })
}

/// Trade groups never contain borrow or repay instructions.
pub proof fn lemma_route_instructions_no_protocol_legs(
    route: Seq<TradeStep>,
    mev: MevProtectionSettings,
)
    ensures
        forall|k: int|
            0 <= k < spec_route_instructions(route, mev).len() ==> !spec_is_borrow(
                #[trigger] spec_route_instructions(route, mev)[k],
            ) && !spec_is_repay(spec_route_instructions(route, mev)[k]),
    decreases route.len(),
{
    if route.len() > 0 {
        lemma_route_instructions_no_protocol_legs(route.drop_last(), mev);
        let prev = spec_route_instructions(route.drop_last(), mev);
        let whole = spec_route_instructions(route, mev);
        assert forall|k: int| 0 <= k < whole.len() implies !spec_is_borrow(whole[k])
            && !spec_is_repay(whole[k]) by {
            if k < prev.len() {
                assert(whole[k] == prev[k]);
            } else if route.last().market != 0 {
                let g = spec_trade_group(route.last(), mev);
                assert(whole[k] == g[k - prev.len()]);
                lemma_trade_group_no_protocol_legs(route.last(), mev);
            }
        }
    }
}

/// No instruction of a trade group is a borrow or repay.
proof fn lemma_trade_group_no_protocol_legs(step: TradeStep, mev: MevProtectionSettings)
    ensures
        forall|k: int|
            0 <= k < spec_trade_group(step, mev).len() ==> !spec_is_borrow(
                #[trigger] spec_trade_group(step, mev)[k],
            ) && !spec_is_repay(spec_trade_group(step, mev)[k]),
{
    let g = spec_trade_group(step, mev);
    assert forall|k: int| 0 <= k < g.len() implies !spec_is_borrow(g[k]) && !spec_is_repay(
        g[k],
    ) by {
        if k >= 2 {
            let guards = spec_mev_guards(mev);
            assert(g[k] == guards[k - 2]);
            lemma_mev_guards_no_protocol_legs(mev);
        }
    }
}

/// Guard instructions are neither borrows nor repays.
proof fn lemma_mev_guards_no_protocol_legs(mev: MevProtectionSettings)
    ensures
        forall|k: int|
            0 <= k < spec_mev_guards(mev).len() ==> !spec_is_borrow(
                #[trigger] spec_mev_guards(mev)[k],
            ) && !spec_is_repay(spec_mev_guards(mev)[k]),
{
    let fr = if mev.frontrunning_detection {
        seq![BuiltInstruction::FrontrunningGuard]
    } else {
        Seq::<BuiltInstruction>::empty()
    };
    let ba = if mev.backrunning_detection {
        seq![BuiltInstruction::BackrunningGuard]
    } else {
        Seq::<BuiltInstruction>::empty()
    };
    let sa = if mev.sandwich_detection {
        seq![BuiltInstruction::SandwichGuard]
    } else {
        Seq::<BuiltInstruction>::empty()
    };
    let guards = spec_mev_guards(mev);
    assert(guards == fr + ba + sa);
    assert forall|k: int| 0 <= k < guards.len() implies !spec_is_borrow(guards[k])
        && !spec_is_repay(guards[k]) by {
        if k < fr.len() {
            assert(guards[k] == fr[k]);
        } else if k < fr.len() + ba.len() {
            assert(guards[k] == ba[k - fr.len()]);
        } else {
            assert(guards[k] == sa[k - fr.len() - ba.len()]);
        }
    }
}

/// Transaction leg ordering: in the sequence assembled for a
/// borrowed-capital route, the borrow instruction is first, the repay
/// instruction is last, and every instruction strictly between them is a
/// trade-leg instruction — never a borrow or repay.
pub proof fn lemma_transaction_leg_ordering(opp: ArbitrageOpportunity, s: Settings)
    requires
        opp.route@.len() > 2,
    ensures
        spec_build_instructions(opp, s).len() >= 2,
        spec_is_borrow(spec_build_instructions(opp, s).first()),
        spec_is_repay(spec_build_instructions(opp, s).last()),
        forall|k: int|
            0 < k < spec_build_instructions(opp, s).len() - 1 ==> !spec_is_borrow(
                #[trigger] spec_build_instructions(opp, s)[k],
            ) && !spec_is_repay(spec_build_instructions(opp, s)[k]),
{
    lemma_route_instructions_no_protocol_legs(opp.route@, s.security.mev_protection);
}

pub struct TransactionBuilder {
    pub settings: Settings,
}

impl TransactionBuilder {
    /// A builder over the engine's settings; the signing credential
    /// stays with the submission path outside the core.
    pub fn new(settings: Settings) -> (r: Self)
        ensures
            r.settings == settings,
    {
        TransactionBuilder { settings }
    }

    /// The protocol to borrow from.
    fn select_flash_loan_protocol(&self) -> (r: Result<FlashLoanProtocol, ArbitrageError>)
        ensures
            r matches Ok(p) && p == FlashLoanProtocol::Solend,
    {
        Ok(FlashLoanProtocol::Solend)
    }

    /// Borrow fee owed to the protocol for the amount.
    fn calculate_flash_loan_fee(&self, amount: u64) -> (r: Result<u64, ArbitrageError>)
        ensures
            r matches Ok(v) && v == amount as int * FLASH_LOAN_FEE_PPM as int / RATE_SCALE as int,
    {
        proof {
            crate::math::lemma_mul_div_mono(
                amount as int,
                amount as int,
                FLASH_LOAN_FEE_PPM as int,
                RATE_SCALE as int,
            );
            vstd::arithmetic::div_mod::lemma_div_is_ordered(
                amount as int * FLASH_LOAN_FEE_PPM as int,
                amount as int * RATE_SCALE as int,
                RATE_SCALE as int,
            );
            vstd::arithmetic::mul::lemma_mul_inequality(
                FLASH_LOAN_FEE_PPM as int,
                RATE_SCALE as int,
                amount as int,
            );
            vstd::arithmetic::mul::lemma_mul_is_commutative(amount as int, RATE_SCALE as int);
            vstd::arithmetic::mul::lemma_mul_is_commutative(
                amount as int,
                FLASH_LOAN_FEE_PPM as int,
            );
            vstd::arithmetic::div_mod::lemma_div_multiples_vanish(amount as int, RATE_SCALE as int);
        }
        Ok(mul_div_u64(amount, FLASH_LOAN_FEE_PPM, RATE_SCALE))
    }

    fn create_flash_loan_instruction(&self, params: &FlashLoanParams) -> (r: Result<
        BuiltInstruction,
        ArbitrageError,
    >)
        ensures
            r matches Ok(i) && i == (BuiltInstruction::FlashLoanBorrow {
                token: params.token.address,
                amount: params.amount,
                protocol: params.protocol,
            }),
    {
        Ok(
            BuiltInstruction::FlashLoanBorrow {
                token: params.token.address,
                amount: params.amount,
                protocol: params.protocol,
            },
        )
    }

    fn create_market_buy_instruction(&self, market: u64, amount: u64, price: u64) -> (r: Result<
        BuiltInstruction,
        ArbitrageError,
    >)
        ensures
            r matches Ok(i) && i == (BuiltInstruction::MarketBuy { market, amount, price }),
    {
        Ok(BuiltInstruction::MarketBuy { market, amount, price })
    }

    fn create_market_sell_instruction(&self, market: u64, amount: u64, price: u64) -> (r: Result<
        BuiltInstruction,
        ArbitrageError,
    >)
        ensures
            r matches Ok(i) && i == (BuiltInstruction::MarketSell { market, amount, price }),
    {
        Ok(BuiltInstruction::MarketSell { market, amount, price })
    }

    fn create_settlement_instruction(&self, step: &TradeStep) -> (r: Result<
        BuiltInstruction,
        ArbitrageError,
    >)
        ensures
            r matches Ok(i) && i == (BuiltInstruction::Settlement { market: step.market }),
    {
        Ok(BuiltInstruction::Settlement { market: step.market })
    }

    fn create_repayment_instruction(&self, amount: u64) -> (r: Result<
        BuiltInstruction,
        ArbitrageError,
    >)
        ensures
            r matches Ok(i) && i == (BuiltInstruction::FlashLoanRepay { amount }),
    {
        Ok(BuiltInstruction::FlashLoanRepay { amount })
    }

    fn create_frontrunning_protection(&self) -> (r: Result<BuiltInstruction, ArbitrageError>)
        ensures
            r matches Ok(i) && i == BuiltInstruction::FrontrunningGuard,
    {
        Ok(BuiltInstruction::FrontrunningGuard)
    }

    fn create_backrunning_protection(&self) -> (r: Result<BuiltInstruction, ArbitrageError>)
        ensures
            r matches Ok(i) && i == BuiltInstruction::BackrunningGuard,
    {
        Ok(BuiltInstruction::BackrunningGuard)
    }

    fn create_sandwich_protection(&self) -> (r: Result<BuiltInstruction, ArbitrageError>)
        ensures
            r matches Ok(i) && i == BuiltInstruction::SandwichGuard,
    {
        Ok(BuiltInstruction::SandwichGuard)
    }

    /// Guard instructions per the configured flags; appended after a
    /// trade group, they never reorder the core legs.
    fn add_mev_protection(&self, _step: &TradeStep) -> (r: Result<
        Vec<BuiltInstruction>,
        ArbitrageError,
    >)
        ensures
            r matches Ok(v) && v@ == spec_mev_guards(self.settings.security.mev_protection),
    {
        let mut protection_instructions: Vec<BuiltInstruction> = Vec::new();
        if self.settings.security.mev_protection.frontrunning_detection {
            let ix = match self.create_frontrunning_protection() {
                Ok(i) => i,
                Err(e) => {
                    return Err(e);
                },
            };
            protection_instructions.push(ix);
        }
        if self.settings.security.mev_protection.backrunning_detection {
            let ix = match self.create_backrunning_protection() {
                Ok(i) => i,
                Err(e) => {
                    return Err(e);
                },
            };
            protection_instructions.push(ix);
        }
        if self.settings.security.mev_protection.sandwich_detection {
            let ix = match self.create_sandwich_protection() {
                Ok(i) => i,
                Err(e) => {
                    return Err(e);
                },
            };
            protection_instructions.push(ix);
        }
        proof {
            assert(protection_instructions@ =~= spec_mev_guards(
                self.settings.security.mev_protection,
            ));
        }
        Ok(protection_instructions)
    }

    fn build_buy_instructions(&self, step: &TradeStep) -> (r: Result<
        Vec<BuiltInstruction>,
        ArbitrageError,
    >)
        ensures
            r matches Ok(v) && v@ == seq![
                BuiltInstruction::MarketBuy {
                    market: step.market,
                    amount: step.amount,
                    price: step.price,
                },
                BuiltInstruction::Settlement { market: step.market },
            ],
    {
        let mut instructions: Vec<BuiltInstruction> = Vec::new();
        let buy_ix = match self.create_market_buy_instruction(step.market, step.amount, step.price) {
            Ok(i) => i,
            Err(e) => {
                return Err(e);
            },
        };
        instructions.push(buy_ix);
        let settle_ix = match self.create_settlement_instruction(step) {
            Ok(i) => i,
            Err(e) => {
                return Err(e);
            },
        };
        instructions.push(settle_ix);
        proof {
            assert(instructions@ =~= seq![
                BuiltInstruction::MarketBuy {
                    market: step.market,
                    amount: step.amount,
                    price: step.price,
                },
                BuiltInstruction::Settlement { market: step.market },
            ]);
        }
        Ok(instructions)
    }

    fn build_sell_instructions(&self, step: &TradeStep) -> (r: Result<
        Vec<BuiltInstruction>,
        ArbitrageError,
    >)
        ensures
            r matches Ok(v) && v@ == seq![
                BuiltInstruction::MarketSell {
                    market: step.market,
                    amount: step.amount,
                    price: step.price,
                },
                BuiltInstruction::Settlement { market: step.market },
            ],
    {
        let mut instructions: Vec<BuiltInstruction> = Vec::new();
        let sell_ix = match self.create_market_sell_instruction(
            step.market,
            step.amount,
            step.price,
        ) {
            Ok(i) => i,
            Err(e) => {
                return Err(e);
            },
        };
        instructions.push(sell_ix);
        let settle_ix = match self.create_settlement_instruction(step) {
            Ok(i) => i,
            Err(e) => {
                return Err(e);
            },
        };
        instructions.push(settle_ix);
        proof {
            assert(instructions@ =~= seq![
                BuiltInstruction::MarketSell {
                    market: step.market,
                    amount: step.amount,
                    price: step.price,
                },
                BuiltInstruction::Settlement { market: step.market },
            ]);
        }
        Ok(instructions)
    }

    /// The instruction group of one trade leg.
    fn build_trade_instructions(&self, step: &TradeStep) -> (r: Result<
        Vec<BuiltInstruction>,
        ArbitrageError,
    >)
        ensures
            r matches Ok(v) && v@ == spec_trade_group(*step, self.settings.security.mev_protection),
    {
        let mut instructions: Vec<BuiltInstruction> = match step.side {
            TradeSide::Buy => match self.build_buy_instructions(step) {
                Ok(v) => v,
                Err(e) => {
                    return Err(e);
                },
            },
            TradeSide::Sell => match self.build_sell_instructions(step) {
                Ok(v) => v,
                Err(e) => {
                    return Err(e);
                },
            },
        };
        if self.settings.security.mev_protection.enabled {
            let mut guards: Vec<BuiltInstruction> = match self.add_mev_protection(step) {
                Ok(v) => v,
                Err(e) => {
                    return Err(e);
                },
            };
            instructions.append(&mut guards);
        }
        proof {
            assert(instructions@ =~= spec_trade_group(
                *step,
                self.settings.security.mev_protection,
            ));
        }
        Ok(instructions)
    }

    /// The borrow leg for an opportunity that implies borrowed capital.
    fn build_flash_loan_instructions(&self, opportunity: &ArbitrageOpportunity) -> (r: Result<
        Vec<BuiltInstruction>,
        ArbitrageError,
    >)
        ensures
            r matches Ok(v) && v@ == seq![
                BuiltInstruction::FlashLoanBorrow {
                    token: opportunity.token_pair.base_token.address,
                    amount: opportunity.required_amount,
                    protocol: FlashLoanProtocol::Solend,
                },
            ],
    {
        let protocol: FlashLoanProtocol = match self.select_flash_loan_protocol() {
            Ok(p) => p,
            Err(e) => {
                return Err(e);
            },
        };
        let flash_loan_params = FlashLoanParams {
            token: opportunity.token_pair.base_token.clone(),
            amount: opportunity.required_amount,
            protocol,
        };
        let mut instructions: Vec<BuiltInstruction> = Vec::new();
        let borrow_ix = match self.create_flash_loan_instruction(&flash_loan_params) {
            Ok(i) => i,
            Err(e) => {
                return Err(e);
            },
        };
        instructions.push(borrow_ix);
        proof {
            assert(instructions@ =~= seq![
                BuiltInstruction::FlashLoanBorrow {
                    token: opportunity.token_pair.base_token.address,
                    amount: opportunity.required_amount,
                    protocol: FlashLoanProtocol::Solend,
                },
            ]);
        }
        Ok(instructions)
    }

    /// The repay leg: principal plus fee, saturating at the integer
    /// limit.
    fn build_repayment_instructions(&self, opportunity: &ArbitrageOpportunity) -> (r: Result<
        Vec<BuiltInstruction>,
        ArbitrageError,
    >)
        ensures
            r matches Ok(v) && v@ == seq![
                BuiltInstruction::FlashLoanRepay {
                    amount: spec_repayment_amount(opportunity.required_amount) as u64,
                },
            ],
    {
        let flash_loan_fee: u64 = match self.calculate_flash_loan_fee(opportunity.required_amount) {
            Ok(v) => v,
            Err(e) => {
                return Err(e);
            },
        };
        let repayment_amount: u64 = if flash_loan_fee <= u64::MAX - opportunity.required_amount {
            opportunity.required_amount + flash_loan_fee
        } else {
            u64::MAX
        };
        let mut instructions: Vec<BuiltInstruction> = Vec::new();
        let repay_ix = match self.create_repayment_instruction(repayment_amount) {
            Ok(i) => i,
            Err(e) => {
                return Err(e);
            },
        };
        instructions.push(repay_ix);
        proof {
            assert(instructions@ =~= seq![
                BuiltInstruction::FlashLoanRepay {
                    amount: spec_repayment_amount(opportunity.required_amount) as u64,
                },
            ]);
        }
        Ok(instructions)
    }

    /// Assemble the atomic instruction sequence of an opportunity: the
    /// borrow leg first when the route implies borrowed capital, one
    /// group per trade leg, and the repay leg last.
    pub fn build_arbitrage_transaction(&self, opportunity: &ArbitrageOpportunity) -> (r: Result<
        Vec<BuiltInstruction>,
        ArbitrageError,
    >)
        ensures
            r matches Ok(v) && v@ == spec_build_instructions(*opportunity, self.settings),
    {
        let mut instructions: Vec<BuiltInstruction> = Vec::new();
        let borrows: bool = opportunity.route.len() > 2;
        if borrows {
            let mut borrow_ixs = match self.build_flash_loan_instructions(opportunity) {
                Ok(v) => v,
                Err(e) => {
                    return Err(e);
                },
            };
            instructions.append(&mut borrow_ixs);
        }
        let prefix = Ghost(instructions@);
        let route_len: usize = opportunity.route.len();
        let mut i: usize = 0;
        proof {
            assert(spec_route_instructions(
                opportunity.route@.take(0),
                self.settings.security.mev_protection,
            ) =~= Seq::<BuiltInstruction>::empty());
            assert(instructions@ =~= prefix@ + spec_route_instructions(
                opportunity.route@.take(0),
                self.settings.security.mev_protection,
            ));
        }
        while i < route_len
            invariant
                0 <= i <= route_len,
                route_len == opportunity.route@.len(),
                instructions@ == prefix@ + spec_route_instructions(
                    opportunity.route@.take(i as int),
                    self.settings.security.mev_protection,
                ),
            decreases route_len - i,
        {
            let step: &TradeStep = &opportunity.route[i];
            proof {
                assert(opportunity.route@.take(i as int + 1).drop_last() =~= opportunity.route@.take(
                    i as int,
                ));
                assert(opportunity.route@.take(i as int + 1).last() == opportunity.route@[i as int]);
            }
            if step.market != 0 {
                let mut group = match self.build_trade_instructions(step) {
                    Ok(v) => v,
                    Err(e) => {
                        return Err(e);
                    },
                };
                instructions.append(&mut group);
            }
            proof {
                assert(instructions@ =~= prefix@ + spec_route_instructions(
                    opportunity.route@.take(i as int + 1),
                    self.settings.security.mev_protection,
                ));
            }
            i = i + 1;
        }
        proof {
            assert(opportunity.route@.take(route_len as int) =~= opportunity.route@);
        }
        if borrows {
            let mut repay_ixs = match self.build_repayment_instructions(opportunity) {
                Ok(v) => v,
                Err(e) => {
                    return Err(e);
                },
            };
            instructions.append(&mut repay_ixs);
        }
        proof {
            assert(instructions@ =~= spec_build_instructions(*opportunity, self.settings));
        }
        Ok(instructions)
    }

    fn optimize_instruction_order(&self, _transaction: &mut Vec<BuiltInstruction>) -> (r: Result<
        (),
        ArbitrageError,
    >)
        ensures
            final(_transaction)@ == old(_transaction)@,
            r is Ok,
    {
        Ok(())
    }

    fn optimize_compute_units(&self, transaction: &mut Vec<BuiltInstruction>) -> (r: Result<
        (),
        ArbitrageError,
    >)
        ensures
            final(transaction)@ == seq![
                BuiltInstruction::ComputeBudget { units: OPTIMIZED_COMPUTE_UNITS },
            ] + old(transaction)@,
            r is Ok,
    {
        transaction.insert(0, BuiltInstruction::ComputeBudget { units: OPTIMIZED_COMPUTE_UNITS });
        proof {
            assert(transaction@ =~= seq![
                BuiltInstruction::ComputeBudget { units: OPTIMIZED_COMPUTE_UNITS },
            ] + old(transaction)@);
        }
        Ok(())
    }

    fn add_priority_fees(&self, transaction: &mut Vec<BuiltInstruction>) -> (r: Result<
        (),
        ArbitrageError,
    >)
        ensures
            final(transaction)@ == seq![
                BuiltInstruction::PriorityFee { lamports: OPTIMIZED_PRIORITY_FEE },
            ] + old(transaction)@,
            r is Ok,
    {
        transaction.insert(0, BuiltInstruction::PriorityFee { lamports: OPTIMIZED_PRIORITY_FEE });
        proof {
            assert(transaction@ =~= seq![
                BuiltInstruction::PriorityFee { lamports: OPTIMIZED_PRIORITY_FEE },
            ] + old(transaction)@);
        }
        Ok(())
    }

    /// Best-effort tuning pass: attaches a compute budget and a priority
    /// fee ahead of the sequence. The assembled legs and their relative
    /// order are untouched — the original sequence is exactly the tail.
    pub fn optimize_transaction(&self, transaction: &mut Vec<BuiltInstruction>) -> (r: Result<
        (),
        ArbitrageError,
    >)
        ensures
            final(transaction)@ == seq![
                BuiltInstruction::PriorityFee { lamports: OPTIMIZED_PRIORITY_FEE },
                BuiltInstruction::ComputeBudget { units: OPTIMIZED_COMPUTE_UNITS },
            ] + old(transaction)@,
            final(transaction)@.skip(2) == old(transaction)@,
            r is Ok,
    {
        match self.optimize_instruction_order(transaction) {
            Ok(()) => (),
            Err(e) => {
                return Err(e);
            },
        }
        match self.optimize_compute_units(transaction) {
            Ok(()) => (),
            Err(e) => {
                return Err(e);
            },
        }
        match self.add_priority_fees(transaction) {
            Ok(()) => (),
            Err(e) => {
                return Err(e);
            },
        }
        proof {
            assert(transaction@ =~= seq![
                BuiltInstruction::PriorityFee { lamports: OPTIMIZED_PRIORITY_FEE },
                BuiltInstruction::ComputeBudget { units: OPTIMIZED_COMPUTE_UNITS },
            ] + old(transaction)@);
            assert(transaction@.skip(2) =~= old(transaction)@);
        }
        Ok(())
    }
}

} // verus!
