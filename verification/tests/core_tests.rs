use solana_arbitrage_bot::dex::{DexRegistry, DexVenue, TradeDirection, VenueQuote};
use solana_arbitrage_bot::engine::{
    advance_stage, ArbitrageEngine, CycleStage, MarketStateCache,
};
use solana_arbitrage_bot::profit::ProfitCalculator;
use solana_arbitrage_bot::settings::{load_security_config, Settings};
use solana_arbitrage_bot::strategies::{initialize_strategies, StrategyFactory};
use solana_arbitrage_bot::types::{
    ArbitrageError, ArbitrageOpportunity, MarketState, SecurityLevel, Token, TokenPair,
    TradeSide, TradeStep,
};

fn token(address: u64, symbol: &str) -> Token {
    Token { address, symbol: symbol.to_string(), decimals: 9 }
}

fn pair() -> TokenPair {
    TokenPair { base_token: token(1, "BASE"), quote_token: token(2, "QUOTE") }
}

fn market(address: u64, bid: u64, ask: u64, liquidity: u64, last_update: i64) -> MarketState {
    MarketState {
        market_address: address,
        base_token: token(1, "BASE"),
        quote_token: token(2, "QUOTE"),
        best_bid: bid,
        best_ask: ask,
        liquidity,
        last_update,
    }
}

fn quote(venue: DexVenue, market: u64, bid: u64, ask: u64, liquidity: u64) -> VenueQuote {
    VenueQuote { venue, market, base_token: 1, quote_token: 2, bid, ask, liquidity }
}

#[test]
fn test_strategy_initialization() {
    let mut settings = Settings::default();
    settings.trading.execution.execution_strategies = vec![
        "jit".to_string(),
        "flash_loan".to_string(),
        "front_running".to_string(),
    ];

    let strategies = initialize_strategies(&settings).unwrap();
    assert_eq!(strategies.len(), 3);
}

#[test]
fn initialize_strategies_respects_enabled_list() {
    let mut settings = Settings::default();
    settings.trading.execution.execution_strategies = vec!["front_running".to_string()];
    let strategies = initialize_strategies(&settings).unwrap();
    assert_eq!(strategies.len(), 1);
    assert_eq!(strategies[0].name(), "Front Running Strategy");
}

#[test]
fn cross_venue_round_trip_scenario() {
    // Venue A quotes 100/101, venue B quotes 103/104 (micro units), no
    // depth constraint involved: the A-to-B spread is about 1.98%.
    let mut registry = DexRegistry::new();
    registry.register_quote(quote(DexVenue::Serum, 11, 100_000_000, 101_000_000, 5_000));
    registry.register_quote(quote(DexVenue::Orca, 22, 103_000_000, 104_000_000, 5_000));

    // A one-percent floor classifies the spread as profitable.
    let opportunities = registry.get_cross_dex_opportunities(&pair(), 10_000).unwrap();
    assert_eq!(opportunities.len(), 1);
    let opp = &opportunities[0];
    assert_eq!(opp.profit_percentage, 19_801);
    assert!(matches!(opp.direction, TradeDirection::Market1ToMarket2));
    assert_eq!(opp.source_market.address, 11);
    assert_eq!(opp.target_market.address, 22);

    // A three-percent floor rejects it.
    let none = registry.get_cross_dex_opportunities(&pair(), 30_000).unwrap();
    assert_eq!(none.len(), 0);
}

#[test]
fn crossed_book_excluded_from_cross_venue_detection() {
    let mut registry = DexRegistry::new();
    // Crossed book on the first venue: bid above ask.
    registry.register_quote(quote(DexVenue::Serum, 11, 102_000_000, 101_000_000, 5_000));
    registry.register_quote(quote(DexVenue::Orca, 22, 103_000_000, 104_000_000, 5_000));
    let opportunities = registry.get_cross_dex_opportunities(&pair(), 0).unwrap();
    assert_eq!(opportunities.len(), 0);
}

#[test]
fn venue_selection_scenario() {
    // Asks 10.5, 10.2, 10.8; only the first two venues have depth for a
    // buy of 500, so the venue quoting 10.2 must win.
    let mut registry = DexRegistry::new();
    registry.register_quote(quote(DexVenue::Serum, 11, 10_400_000, 10_500_000, 1_000));
    registry.register_quote(quote(DexVenue::Orca, 22, 10_100_000, 10_200_000, 800));
    registry.register_quote(quote(DexVenue::Raydium, 33, 10_700_000, 10_800_000, 100));

    let (venue, price) = registry.get_best_execution_venue(&pair(), 500, true).unwrap();
    assert_eq!(venue, DexVenue::Orca);
    assert_eq!(price, 10_200_000);
}

#[test]
fn venue_selection_sell_takes_highest_bid() {
    let mut registry = DexRegistry::new();
    registry.register_quote(quote(DexVenue::Serum, 11, 10_400_000, 10_500_000, 1_000));
    registry.register_quote(quote(DexVenue::Orca, 22, 10_100_000, 10_200_000, 800));
    let (venue, price) = registry.get_best_execution_venue(&pair(), 500, false).unwrap();
    assert_eq!(venue, DexVenue::Serum);
    assert_eq!(price, 10_400_000);
}

#[test]
fn depth_insufficiency_scenario() {
    // Every venue reports depth below the requested amount: a "no
    // suitable venue" error, not a panic or a default value.
    let mut registry = DexRegistry::new();
    registry.register_quote(quote(DexVenue::Serum, 11, 10_400_000, 10_500_000, 400));
    registry.register_quote(quote(DexVenue::Orca, 22, 10_100_000, 10_200_000, 300));

    let result = registry.get_best_execution_venue(&pair(), 500, true);
    match result {
        Err(ArbitrageError::MarketError(message)) => {
            assert_eq!(message, "No suitable execution venue found");
        },
        _ => panic!("expected a market error for insufficient depth"),
    }
}

#[test]
fn register_quote_replaces_same_slot() {
    let mut registry = DexRegistry::new();
    registry.register_quote(quote(DexVenue::Serum, 11, 1, 2, 3));
    registry.register_quote(quote(DexVenue::Serum, 11, 10, 20, 30));
    registry.register_quote(quote(DexVenue::Orca, 11, 5, 6, 7));
    assert_eq!(registry.quotes.len(), 2);
    assert_eq!(registry.quotes[0].bid, 10);

    let markets = registry.get_all_markets(&pair()).unwrap();
    assert_eq!(markets.len(), 2);
    let first = registry.find_market(DexVenue::Orca, &pair()).unwrap();
    assert_eq!(first, 11);
}

#[test]
fn slippage_is_monotone_and_capped() {
    let calculator = ProfitCalculator::new(Settings::default());
    let state = market(7, 1_000_000, 1_000_000, 1_000_000, 0);
    let small = calculator.calculate_slippage(5_000, &state).unwrap();
    let large = calculator.calculate_slippage(50_000, &state).unwrap();
    let huge = calculator.calculate_slippage(u64::MAX, &state).unwrap();
    assert_eq!(small, 5_000);
    assert_eq!(large, 10_000);
    assert_eq!(huge, 10_000);
    assert!(small <= large && large <= huge);
}

fn profitable_opportunity(required_amount: u64) -> ArbitrageOpportunity {
    // One buy leg priced at 0.5 against a market bidding 1.0.
    ArbitrageOpportunity {
        source_market: 7,
        target_market: 7,
        token_pair: pair(),
        profit_percentage: 0,
        required_amount,
        estimated_profit: 0,
        route: vec![TradeStep { market: 7, side: TradeSide::Buy, amount: 1_000_000, price: 500_000 }],
        timestamp: 0,
    }
}

#[test]
fn total_profit_exact_value() {
    let calculator = ProfitCalculator::new(Settings::default());
    let states = vec![market(7, 1_000_000, 1_000_000, 1_000_000, 0)];
    let opp = profitable_opportunity(1_000_000);
    let total = calculator.calculate_total_profit(&opp, &states).unwrap();
    assert_eq!(total, 963_257);
    assert_eq!(calculator.is_profitable(&opp, &states).unwrap(), true);
}

#[test]
fn oversized_position_is_never_profitable() {
    // Same deeply profitable route, but the required amount exceeds the
    // position cap: the verdict must be false regardless of profit.
    let mut settings = Settings::default();
    settings.trading.execution.max_position_size = 500_000;
    let calculator = ProfitCalculator::new(settings);
    let states = vec![market(7, 1_000_000, 1_000_000, 1_000_000, 0)];
    let opp = profitable_opportunity(1_000_000);
    assert_eq!(calculator.is_profitable(&opp, &states).unwrap(), false);
}

#[test]
fn total_profit_unknown_market_errors() {
    let calculator = ProfitCalculator::new(Settings::default());
    let states: Vec<MarketState> = Vec::new();
    let opp = profitable_opportunity(1_000_000);
    match calculator.calculate_total_profit(&opp, &states) {
        Err(ArbitrageError::MarketError(message)) => {
            assert_eq!(message, "Market state not found");
        },
        _ => panic!("expected a market error for a missing market"),
    }
}

#[test]
fn settings_validation_reports_each_rule() {
    let valid = Settings::default();
    assert!(valid.validate().is_ok());
    assert!(Settings::load().is_ok());

    let mut no_rpc = Settings::default();
    no_rpc.network.rpc_endpoints.clear();
    match no_rpc.validate() {
        Err(ArbitrageError::ConfigError(message)) => {
            assert_eq!(message, "No RPC endpoints configured");
        },
        _ => panic!("expected a configuration error"),
    }

    let mut bad_threshold = Settings::default();
    bad_threshold.trading.execution.min_profit_threshold = 0;
    match bad_threshold.validate() {
        Err(ArbitrageError::ConfigError(message)) => {
            assert_eq!(message, "Invalid profit threshold");
        },
        _ => panic!("expected a configuration error"),
    }

    let mut bad_mev = Settings::default();
    bad_mev.security.mev_protection.protection_level = 0;
    match bad_mev.validate() {
        Err(ArbitrageError::ConfigError(message)) => {
            assert_eq!(message, "Invalid MEV protection level");
        },
        _ => panic!("expected a configuration error"),
    }
}

#[test]
fn error_descriptions_carry_class_prefix() {
    let err = ArbitrageError::MarketError("book is crossed".to_string());
    assert_eq!(err.describe(), "Market error: book is crossed");
    let err = ArbitrageError::SecurityViolation("gate".to_string());
    assert_eq!(err.describe(), "Security violation: gate");
    let err = ArbitrageError::MevAttackDetected("sandwich".to_string());
    assert_eq!(err.describe(), "MEV attack detected: sandwich");
}

#[test]
fn security_config_defaults() {
    let config = load_security_config();
    assert!(matches!(config.level, SecurityLevel::High));
    assert_eq!(config.max_slippage, 10_000);
    assert_eq!(config.timeout_ms, 5_000);
    assert!(config.require_signatures);
}

#[test]
fn cycle_stage_machine_advances_and_aborts() {
    assert_eq!(advance_stage(CycleStage::Idle, true), CycleStage::Refreshing);
    assert_eq!(advance_stage(CycleStage::Refreshing, true), CycleStage::Detecting);
    assert_eq!(advance_stage(CycleStage::Detecting, true), CycleStage::Validating);
    assert_eq!(advance_stage(CycleStage::Validating, true), CycleStage::Scoring);
    assert_eq!(advance_stage(CycleStage::Scoring, true), CycleStage::Building);
    assert_eq!(advance_stage(CycleStage::Building, true), CycleStage::Submitting);
    assert_eq!(advance_stage(CycleStage::Submitting, true), CycleStage::Confirming);
    assert_eq!(advance_stage(CycleStage::Confirming, true), CycleStage::Idle);
    assert_eq!(advance_stage(CycleStage::Building, false), CycleStage::Idle);
}

#[test]
fn cache_refresh_replaces_wholesale() {
    let mut cache = MarketStateCache::new();
    cache.refresh(market(7, 1, 2, 3, 10));
    cache.refresh(market(8, 4, 5, 6, 11));
    cache.refresh(market(7, 100, 200, 300, 12));
    assert_eq!(cache.states.len(), 2);
    let st = cache.get(7).unwrap();
    assert_eq!(st.best_bid, 100);
    assert_eq!(st.last_update, 12);
    assert!(cache.get(9).is_none());
}

#[test]
fn engine_validation_gates() {
    let mut engine = ArbitrageEngine::new(Settings::default()).unwrap();
    engine.add_market_state(market(7, 1_000_000, 1_000_000, 1_000_000, 100)).unwrap();
    engine.add_market_state(market(8, 2_000_000, 1_900_000, 1_000_000, 100)).unwrap();

    // Fresh and healthy passes; stale or crossed does not.
    assert!(engine.validate_market_state(7, 104));
    assert!(!engine.validate_market_state(7, 106));
    assert!(!engine.validate_market_state(8, 104));
    assert!(!engine.validate_market_state(9, 104));

    let opp = ArbitrageOpportunity {
        source_market: 7,
        target_market: 7,
        token_pair: pair(),
        profit_percentage: 50_000,
        required_amount: 1_000,
        estimated_profit: 10,
        route: vec![TradeStep { market: 7, side: TradeSide::Buy, amount: 1_000, price: 1_000_000 }],
        timestamp: 100,
    };
    assert_eq!(engine.validate_opportunity(&opp, 104).unwrap(), true);
    // Older than five seconds: always rejected.
    assert_eq!(engine.validate_opportunity(&opp, 106).unwrap(), false);

    let stale_leg = ArbitrageOpportunity { timestamp: 200, ..opp };
    assert_eq!(engine.validate_opportunity(&stale_leg, 200).unwrap(), false);
}

#[test]
fn engine_rejects_invalid_settings() {
    let mut settings = Settings::default();
    settings.network.rpc_endpoints.clear();
    match ArbitrageEngine::new(settings) {
        Err(ArbitrageError::ConfigError(_)) => {},
        _ => panic!("expected a startup-fatal configuration error"),
    }
}

#[test]
fn execution_summary_cases() {
    let engine = ArbitrageEngine::new(Settings::default()).unwrap();
    let opp = profitable_opportunity(1_000);

    let failed = engine.summarize_execution(&opp, false, None, false, 9).unwrap();
    assert!(!failed.success);
    assert_eq!(failed.error.as_deref(), Some("Transaction simulation failed"));
    assert_eq!(failed.execution_time_ms, 0);
    assert!(failed.transaction_signature.is_none());

    match engine.summarize_execution(&opp, true, None, false, 9) {
        Err(ArbitrageError::TransactionError(message)) => {
            assert_eq!(message, "Transaction submission failed");
        },
        _ => panic!("expected a submission error"),
    }

    match engine.summarize_execution(&opp, true, Some("sig".to_string()), false, 9) {
        Err(ArbitrageError::TransactionError(message)) => {
            assert_eq!(message, "Transaction confirmation failed");
        },
        _ => panic!("expected a confirmation error"),
    }

    let done = engine
        .summarize_execution(&opp, true, Some("sig".to_string()), true, 9)
        .unwrap();
    assert!(done.success);
    assert_eq!(done.profit_realized, Some(opp.estimated_profit));
    assert_eq!(done.transaction_signature.as_deref(), Some("sig"));
    assert_eq!(done.execution_time_ms, 9);
}

#[test]
fn factory_builds_known_strategies_and_rejects_unknown() {
    assert_eq!(StrategyFactory::create_strategy("jit").unwrap().name(), "JIT Liquidity Strategy");
    assert_eq!(
        StrategyFactory::create_strategy("flash_loan").unwrap().name(),
        "Flash Loan Strategy"
    );
    assert_eq!(
        StrategyFactory::create_strategy("front_running").unwrap().name(),
        "Front Running Strategy"
    );
    match StrategyFactory::create_strategy("martingale") {
        Err(ArbitrageError::ConfigError(message)) => {
            assert_eq!(message, "Unknown strategy type: martingale");
        },
        _ => panic!("expected a configuration error for an unknown name"),
    }
}
