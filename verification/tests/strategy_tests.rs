use solana_arbitrage_bot::settings::Settings;
use solana_arbitrage_bot::strategies::flash_loan::FlashLoanStrategy;
use solana_arbitrage_bot::strategies::front_running::{FrontRunningStrategy, PendingTransaction};
use solana_arbitrage_bot::strategies::jit_liquidity::JitLiquidityStrategy;
use solana_arbitrage_bot::transaction::{BuiltInstruction, TransactionBuilder};
use solana_arbitrage_bot::types::{
    ArbitrageOpportunity, MarketState, Token, TokenPair, TradeSide, TradeStep,
};

fn token(address: u64, symbol: &str) -> Token {
    Token { address, symbol: symbol.to_string(), decimals: 9 }
}

fn pair() -> TokenPair {
    TokenPair { base_token: token(1, "BASE"), quote_token: token(2, "QUOTE") }
}

fn market(address: u64, bid: u64, ask: u64, liquidity: u64, last_update: i64) -> MarketState {
    MarketState {
        market_address: address,
        base_token: token(1, "BASE"),
        quote_token: token(2, "QUOTE"),
        best_bid: bid,
        best_ask: ask,
        liquidity,
        last_update,
    }
}

#[test]
fn flash_loan_scan_emits_borrow_first_repay_last() {
    // Market 1 asks 1.0, market 2 bids 1.1: a ten-percent spread that
    // clears the worst borrow rate plus the profit floor.
    let states = vec![
        market(1, 990_000, 1_000_000, 10_000_000, 50),
        market(2, 1_100_000, 1_110_000, 10_000_000, 50),
    ];
    let strategy = FlashLoanStrategy::with_market_data(Settings::default(), states);
    let opportunities = strategy.analyze(&[1, 2], 100).unwrap();
    assert_eq!(opportunities.len(), 1);

    let opp = &opportunities[0];
    assert_eq!(opp.source_market, 1);
    assert_eq!(opp.target_market, 2);
    assert_eq!(opp.required_amount, 10_000_000);
    assert_eq!(opp.estimated_profit, 928_000);
    assert_eq!(opp.profit_percentage, 92_800);
    assert_eq!(opp.timestamp, 100);

    // Leg ordering: borrow first, repay last, trades strictly between.
    assert_eq!(opp.route.len(), 4);
    assert_eq!(opp.route[0].market, 0);
    assert!(matches!(opp.route[0].side, TradeSide::Buy));
    assert_eq!(opp.route[3].market, 0);
    assert!(matches!(opp.route[3].side, TradeSide::Sell));
    assert_eq!(opp.route[1].market, 1);
    assert!(matches!(opp.route[1].side, TradeSide::Buy));
    assert_eq!(opp.route[1].price, 1_000_000);
    assert_eq!(opp.route[2].market, 2);
    assert!(matches!(opp.route[2].side, TradeSide::Sell));
    assert_eq!(opp.route[2].price, 1_100_000);
}

#[test]
fn flash_loan_ignores_crossed_and_thin_markets() {
    // Crossed target book: no opportunity may come out of it.
    let crossed = vec![
        market(1, 990_000, 1_000_000, 10_000_000, 50),
        market(2, 1_100_000, 1_090_000, 10_000_000, 50),
    ];
    let strategy = FlashLoanStrategy::with_market_data(Settings::default(), crossed);
    assert_eq!(strategy.analyze(&[1, 2], 100).unwrap().len(), 0);

    // Depth below the configured minimum liquidity: rejected too.
    let thin = vec![
        market(1, 990_000, 1_000_000, 500_000, 50),
        market(2, 1_100_000, 1_110_000, 10_000_000, 50),
    ];
    let strategy = FlashLoanStrategy::with_market_data(Settings::default(), thin);
    assert_eq!(strategy.analyze(&[1, 2], 100).unwrap().len(), 0);
}

#[test]
fn flash_loan_validate_windows() {
    let states = vec![
        market(1, 990_000, 1_000_000, 10_000_000, 50),
        market(2, 1_100_000, 1_110_000, 10_000_000, 50),
    ];
    let strategy = FlashLoanStrategy::with_market_data(Settings::default(), states);
    let opportunities = strategy.analyze(&[1, 2], 100).unwrap();
    let opp = &opportunities[0];

    // Within three seconds the pair still qualifies.
    assert_eq!(strategy.validate(opp, 103).unwrap(), true);
    // Older than three seconds: always rejected.
    assert_eq!(strategy.validate(opp, 104).unwrap(), false);
}

#[test]
fn jit_round_trip_inside_spread_is_not_profitable() {
    // A healthy market with a narrow spread: buying at the ask and
    // selling at the bid never clears the profit floor.
    let states = vec![market(5, 1_000_000, 1_010_000, 10_000_000, 50)];
    let strategy = JitLiquidityStrategy::with_market_data(Settings::default(), states);
    let opportunities = strategy.analyze(&[5], 100).unwrap();
    assert_eq!(opportunities.len(), 0);
}

#[test]
fn jit_validate_windows() {
    let strategy = JitLiquidityStrategy::new();
    let opp = ArbitrageOpportunity {
        source_market: 5,
        target_market: 5,
        token_pair: pair(),
        profit_percentage: 50_000,
        required_amount: 1_000,
        estimated_profit: 10,
        route: Vec::new(),
        timestamp: 100,
    };
    assert_eq!(strategy.validate(&opp, 105).unwrap(), true);
    assert_eq!(strategy.validate(&opp, 106).unwrap(), false);

    let below_floor = ArbitrageOpportunity { profit_percentage: 5_000, ..opp };
    assert_eq!(strategy.validate(&below_floor, 105).unwrap(), false);
}

#[test]
fn front_running_scan_builds_counter_route() {
    let states = vec![market(9, 1_000_000, 1_010_000, 1_000_000, 50)];
    let mut strategy = FrontRunningStrategy::with_market_data(Settings::default(), states);
    strategy.push_pending_transaction(PendingTransaction {
        market: 9,
        side: TradeSide::Sell,
        amount: 100_000,
        price: 1_000_000,
        timestamp: 99,
    });

    let opportunities = strategy.analyze(&[], 100).unwrap();
    assert_eq!(opportunities.len(), 1);
    let opp = &opportunities[0];
    assert_eq!(opp.source_market, 9);
    assert_eq!(opp.required_amount, 303_000);
    assert_eq!(opp.estimated_profit, 305_418);
    assert_eq!(opp.profit_percentage, 997_003);
    assert_eq!(opp.timestamp, 100);

    // Entry opposes the observed action, exit goes with it.
    assert_eq!(opp.route.len(), 2);
    assert!(matches!(opp.route[0].side, TradeSide::Buy));
    assert_eq!(opp.route[0].price, 1_010_000);
    assert!(matches!(opp.route[1].side, TradeSide::Sell));
    assert_eq!(opp.route[1].price, 1_000_000);
}

#[test]
fn front_running_ignores_stale_pending_actions() {
    let states = vec![market(9, 1_000_000, 1_010_000, 1_000_000, 50)];
    let mut strategy = FrontRunningStrategy::with_market_data(Settings::default(), states);
    strategy.push_pending_transaction(PendingTransaction {
        market: 9,
        side: TradeSide::Sell,
        amount: 100_000,
        price: 1_000_000,
        timestamp: 90,
    });
    // Observed more than two seconds ago: no longer worth pre-empting.
    assert_eq!(strategy.analyze(&[], 100).unwrap().len(), 0);
}

#[test]
fn front_running_validate_windows() {
    let states = vec![market(9, 1_000_000, 1_010_000, 1_000_000, 50)];
    let strategy = FrontRunningStrategy::with_market_data(Settings::default(), states);
    let opp = ArbitrageOpportunity {
        source_market: 9,
        target_market: 9,
        token_pair: pair(),
        profit_percentage: 50_000,
        required_amount: 1_000,
        estimated_profit: 10,
        route: Vec::new(),
        timestamp: 100,
    };
    assert_eq!(strategy.validate(&opp, 101).unwrap(), true);
    assert_eq!(strategy.validate(&opp, 102).unwrap(), false);
}

#[test]
fn opportunities_come_out_sorted_by_profit() {
    // Two independent profitable pairs with different spreads: the
    // wider spread must come first.
    let states = vec![
        market(1, 990_000, 1_000_000, 10_000_000, 50),
        market(2, 1_100_000, 1_110_000, 10_000_000, 50),
        market(3, 990_000, 1_000_000, 10_000_000, 50),
        market(4, 1_050_000, 1_060_000, 10_000_000, 50),
    ];
    let strategy = FlashLoanStrategy::with_market_data(Settings::default(), states);
    let opportunities = strategy.analyze(&[1, 2, 3, 4], 100).unwrap();
    assert!(opportunities.len() >= 2);
    for window in opportunities.windows(2) {
        assert!(window[0].profit_percentage >= window[1].profit_percentage);
    }
    // Distinct market ids: no pair may be reported twice.
    for a in 0..opportunities.len() {
        for b in (a + 1)..opportunities.len() {
            assert!(
                (opportunities[a].source_market, opportunities[a].target_market)
                    != (opportunities[b].source_market, opportunities[b].target_market)
            );
        }
    }
}

#[test]
fn transaction_build_orders_borrow_trades_repay() {
    let builder = TransactionBuilder::new(Settings::default());
    let opp = ArbitrageOpportunity {
        source_market: 1,
        target_market: 2,
        token_pair: pair(),
        profit_percentage: 92_800,
        required_amount: 10_000_000,
        estimated_profit: 928_000,
        route: vec![
            TradeStep { market: 0, side: TradeSide::Buy, amount: 10_000_000, price: 0 },
            TradeStep { market: 1, side: TradeSide::Buy, amount: 10_000_000, price: 1_000_000 },
            TradeStep { market: 2, side: TradeSide::Sell, amount: 10_000_000, price: 1_100_000 },
            TradeStep { market: 0, side: TradeSide::Sell, amount: 10_000_000, price: 0 },
        ],
        timestamp: 100,
    };

    let instructions = builder.build_arbitrage_transaction(&opp).unwrap();
    // Borrow, two trade groups of five (trade, settlement, three
    // guards), repay.
    assert_eq!(instructions.len(), 12);
    assert!(matches!(instructions[0], BuiltInstruction::FlashLoanBorrow { .. }));
    assert!(matches!(
        instructions[11],
        BuiltInstruction::FlashLoanRepay { amount: 10_009_000 }
    ));
    for instruction in &instructions[1..11] {
        assert!(!matches!(instruction, BuiltInstruction::FlashLoanBorrow { .. }));
        assert!(!matches!(instruction, BuiltInstruction::FlashLoanRepay { .. }));
    }
    assert!(matches!(
        instructions[1],
        BuiltInstruction::MarketBuy { market: 1, amount: 10_000_000, price: 1_000_000 }
    ));
    assert!(matches!(instructions[2], BuiltInstruction::Settlement { market: 1 }));
    assert!(matches!(
        instructions[6],
        BuiltInstruction::MarketSell { market: 2, amount: 10_000_000, price: 1_100_000 }
    ));

    // The tuning pass prepends fee and budget without touching legs.
    let mut optimized = instructions.clone();
    builder.optimize_transaction(&mut optimized).unwrap();
    assert_eq!(optimized.len(), 14);
    assert!(matches!(optimized[0], BuiltInstruction::PriorityFee { lamports: 1_000 }));
    assert!(matches!(optimized[1], BuiltInstruction::ComputeBudget { units: 200_000 }));
    assert_eq!(&optimized[2..], &instructions[..]);
}

#[test]
fn two_leg_route_builds_without_borrow() {
    let builder = TransactionBuilder::new(Settings::default());
    let opp = ArbitrageOpportunity {
        source_market: 5,
        target_market: 5,
        token_pair: pair(),
        profit_percentage: 10_000,
        required_amount: 1_000,
        estimated_profit: 10,
        route: vec![
            TradeStep { market: 5, side: TradeSide::Buy, amount: 1_000, price: 1_010_000 },
            TradeStep { market: 5, side: TradeSide::Sell, amount: 1_000, price: 1_000_000 },
        ],
        timestamp: 100,
    };
    let instructions = builder.build_arbitrage_transaction(&opp).unwrap();
    assert_eq!(instructions.len(), 10);
    for instruction in &instructions {
        assert!(!matches!(instruction, BuiltInstruction::FlashLoanBorrow { .. }));
        assert!(!matches!(instruction, BuiltInstruction::FlashLoanRepay { .. }));
    }
}
