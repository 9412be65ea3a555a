//! Nested configuration shared read-only by every component.
//!
//! Thresholds and tolerances are fixed-point: rates in parts per million
//! (`RATE_SCALE`), absolute value thresholds in micro quote-units.
//! Validation failures are startup-fatal for the process that embeds the
//! engine; `validate` reports exactly which rule broke.

use vstd::prelude::*;
use crate::types::{ArbitrageError, SecurityConfig, SecurityLevel};

verus! {

#[derive(Debug)]
pub struct Settings {
    pub network: NetworkSettings,
    pub trading: TradingSettings,
    pub security: SecuritySettings,
    pub monitoring: MonitoringSettings,
}

#[derive(Debug)]
pub struct NetworkSettings {
    pub rpc_endpoints: Vec<String>,
    pub ws_endpoints: Vec<String>,
    pub backup_nodes: Vec<String>,
    pub max_retries: u32,
    pub timeout_ms: u64,
}

#[derive(Debug)]
pub struct TradingSettings {
    pub markets: MarketSettings,
    pub execution: ExecutionSettings,
    pub risk: RiskSettings,
}

#[derive(Debug)]
pub struct MarketSettings {
    pub whitelisted_markets: Vec<u64>,
    pub whitelisted_tokens: Vec<u64>,
    pub blacklisted_markets: Vec<u64>,
    /// Minimum depth a market must report, in base smallest units.
    pub min_liquidity: u64,
    /// Widest acceptable relative spread, in parts per million.
    pub max_spread: u64,
}

#[derive(Debug)]
pub struct ExecutionSettings {
    pub max_concurrent_trades: u32,
    /// Profit floor: compared against net profit in micro quote-units and
    /// against profit percentages in parts per million.
    pub min_profit_threshold: i64,
    /// Hard cap on position size, in base smallest units.
    pub max_position_size: u64,
    pub flash_loan_enabled: bool,
    pub flash_loan_sources: Vec<String>,
    pub execution_strategies: Vec<String>,
}

#[derive(Debug, Clone, Copy, PartialEq, Eq, Structural)]
pub struct RiskSettings {
    /// Risk-adjusted floor on profit per unit deployed, in parts per
    /// million; negative values tolerate a bounded loss ratio.
    pub max_loss_threshold: i64,
    pub daily_volume_limit: u64,
    pub position_timeout: u64,
    /// Cap of the slippage model, in parts per million.
    pub slippage_tolerance: u64,
}

#[derive(Debug)]
pub struct SecuritySettings {
    pub level: SecurityLevel,
    pub mev_protection: MevProtectionSettings,
    pub quantum_security: QuantumSecuritySettings,
    pub transaction_guards: TransactionGuardSettings,
}

#[derive(Debug, Clone, Copy, PartialEq, Eq, Structural)]
pub struct MevProtectionSettings {
    pub enabled: bool,
    pub protection_level: u32,
    pub sandwich_detection: bool,
    pub frontrunning_detection: bool,
    pub backrunning_detection: bool,
}

#[derive(Debug)]
pub struct QuantumSecuritySettings {
    pub enabled: bool,
    pub encryption_level: String,
    pub key_rotation_interval: u64,
}

#[derive(Debug, Clone, Copy, PartialEq, Eq, Structural)]
pub struct TransactionGuardSettings {
    pub signature_verification: bool,
    pub timeout_ms: u64,
    pub max_retries: u32,
    pub require_confirmations: u32,
}

#[derive(Debug)]
pub struct MonitoringSettings {
    pub log_level: String,
    pub metrics_enabled: bool,
    pub alert_endpoints: Vec<String>,
    pub performance_tracking: bool,
}

fn clone_string_vec(v: &Vec<String>) -> (res: Vec<String>)
    ensures
        res@ == v@,
{
    let res = v.clone();
    assert forall|i: int| 0 <= i < v@.len() implies res@[i] == v@[i] by {
        assert(cloned::<String>(v@[i], res@[i]));
    }
    assert(res@ =~= v@);
    res
}

fn clone_u64_vec(v: &Vec<u64>) -> (res: Vec<u64>)
    ensures
        res@ == v@,
{
    let res = v.clone();
    assert forall|i: int| 0 <= i < v@.len() implies res@[i] == v@[i] by {
        assert(cloned::<u64>(v@[i], res@[i]));
    }
    assert(res@ =~= v@);
    res
}

impl Clone for NetworkSettings {
    fn clone(&self) -> (res: Self)
        ensures
            res.rpc_endpoints@ == self.rpc_endpoints@,
            res.ws_endpoints@ == self.ws_endpoints@,
            res.backup_nodes@ == self.backup_nodes@,
            res.max_retries == self.max_retries,
            res.timeout_ms == self.timeout_ms,
    {
        NetworkSettings {
            rpc_endpoints: clone_string_vec(&self.rpc_endpoints),
            ws_endpoints: clone_string_vec(&self.ws_endpoints),
            backup_nodes: clone_string_vec(&self.backup_nodes),
            max_retries: self.max_retries,
            timeout_ms: self.timeout_ms,
        }
    }
}

impl Clone for MarketSettings {
    fn clone(&self) -> (res: Self)
        ensures
            res.whitelisted_markets@ == self.whitelisted_markets@,
            res.whitelisted_tokens@ == self.whitelisted_tokens@,
            res.blacklisted_markets@ == self.blacklisted_markets@,
            res.min_liquidity == self.min_liquidity,
            res.max_spread == self.max_spread,
    {
        MarketSettings {
            whitelisted_markets: clone_u64_vec(&self.whitelisted_markets),
            whitelisted_tokens: clone_u64_vec(&self.whitelisted_tokens),
            blacklisted_markets: clone_u64_vec(&self.blacklisted_markets),
            min_liquidity: self.min_liquidity,
            max_spread: self.max_spread,
        }
    }
}

impl Clone for ExecutionSettings {
    fn clone(&self) -> (res: Self)
        ensures
            res.max_concurrent_trades == self.max_concurrent_trades,
            res.min_profit_threshold == self.min_profit_threshold,
            res.max_position_size == self.max_position_size,
            res.flash_loan_enabled == self.flash_loan_enabled,
            res.flash_loan_sources@ == self.flash_loan_sources@,
            res.execution_strategies@ == self.execution_strategies@,
    {
        ExecutionSettings {
            max_concurrent_trades: self.max_concurrent_trades,
            min_profit_threshold: self.min_profit_threshold,
            max_position_size: self.max_position_size,
            flash_loan_enabled: self.flash_loan_enabled,
            flash_loan_sources: clone_string_vec(&self.flash_loan_sources),
            execution_strategies: clone_string_vec(&self.execution_strategies),
        }
    }
}

impl Clone for TradingSettings {
    fn clone(&self) -> (res: Self)
        ensures
            res.markets.whitelisted_markets@ == self.markets.whitelisted_markets@,
            res.markets.whitelisted_tokens@ == self.markets.whitelisted_tokens@,
            res.markets.blacklisted_markets@ == self.markets.blacklisted_markets@,
            res.markets.min_liquidity == self.markets.min_liquidity,
            res.markets.max_spread == self.markets.max_spread,
            res.execution.max_concurrent_trades == self.execution.max_concurrent_trades,
            res.execution.min_profit_threshold == self.execution.min_profit_threshold,
            res.execution.max_position_size == self.execution.max_position_size,
            res.execution.flash_loan_enabled == self.execution.flash_loan_enabled,
            res.execution.flash_loan_sources@ == self.execution.flash_loan_sources@,
            res.execution.execution_strategies@ == self.execution.execution_strategies@,
            res.risk == self.risk,
    {
        TradingSettings {
            markets: self.markets.clone(),
            execution: self.execution.clone(),
            risk: self.risk.clone(),
        }
    }
}

impl Clone for QuantumSecuritySettings {
    fn clone(&self) -> (res: Self)
        ensures
            res.enabled == self.enabled,
            res.encryption_level@ == self.encryption_level@,
            res.key_rotation_interval == self.key_rotation_interval,
    {
        QuantumSecuritySettings {
            enabled: self.enabled,
            encryption_level: self.encryption_level.clone(),
            key_rotation_interval: self.key_rotation_interval,
        }
    }
}

impl Clone for SecuritySettings {
    fn clone(&self) -> (res: Self)
        ensures
            res.level == self.level,
            res.mev_protection == self.mev_protection,
            res.quantum_security.enabled == self.quantum_security.enabled,
            res.quantum_security.encryption_level@ == self.quantum_security.encryption_level@,
            res.quantum_security.key_rotation_interval == self.quantum_security.key_rotation_interval,
            res.transaction_guards == self.transaction_guards,
    {
        SecuritySettings {
            level: self.level,
            mev_protection: self.mev_protection,
            quantum_security: self.quantum_security.clone(),
            transaction_guards: self.transaction_guards,
        }
    }
}

impl Clone for MonitoringSettings {
    fn clone(&self) -> (res: Self)
        ensures
            res.log_level@ == self.log_level@,
            res.metrics_enabled == self.metrics_enabled,
            res.alert_endpoints@ == self.alert_endpoints@,
            res.performance_tracking == self.performance_tracking,
    {
        MonitoringSettings {
            log_level: self.log_level.clone(),
            metrics_enabled: self.metrics_enabled,
            alert_endpoints: clone_string_vec(&self.alert_endpoints),
            performance_tracking: self.performance_tracking,
        }
    }
}

impl Settings {
    /// The three startup validation rules, in the order they are checked:
    /// an RPC endpoint must exist, the profit floor must be positive, and
    /// enabled MEV protection must carry a positive protection level.
    pub open spec fn spec_valid(&self) -> bool {
        &&& self.network.rpc_endpoints@.len() > 0
        &&& self.trading.execution.min_profit_threshold > 0
        &&& (self.security.mev_protection.enabled ==> self.security.mev_protection.protection_level > 0)
    }

    pub fn validate(&self) -> (r: Result<(), ArbitrageError>)
        ensures
            r is Ok <==> self.spec_valid(),
            self.network.rpc_endpoints@.len() == 0 ==> (r matches Err(ArbitrageError::ConfigError(m))
                && m@ == "No RPC endpoints configured"@),
            self.network.rpc_endpoints@.len() > 0 && self.trading.execution.min_profit_threshold <= 0
                ==> (r matches Err(ArbitrageError::ConfigError(m)) && m@ == "Invalid profit threshold"@),
            self.network.rpc_endpoints@.len() > 0 && self.trading.execution.min_profit_threshold > 0
                && self.security.mev_protection.enabled && self.security.mev_protection.protection_level == 0
                ==> (r matches Err(ArbitrageError::ConfigError(m)) && m@ == "Invalid MEV protection level"@),
    {
        if self.network.rpc_endpoints.len() == 0 {
            return Err(ArbitrageError::ConfigError("No RPC endpoints configured".to_owned()));
        }
        if self.trading.execution.min_profit_threshold <= 0 {
            return Err(ArbitrageError::ConfigError("Invalid profit threshold".to_owned()));
        }
        if self.security.mev_protection.enabled && self.security.mev_protection.protection_level == 0 {
            return Err(ArbitrageError::ConfigError("Invalid MEV protection level".to_owned()));
        }
        Ok(())
    }

    /// Validated default configuration; the embedding process may swap in
    /// endpoints and lists of its own before constructing the engine.
    pub fn load() -> (r: Result<Settings, ArbitrageError>)
        ensures
            r matches Ok(s) && s.spec_valid(),
    {
        let settings = Settings::default();
        match settings.validate() {
            Ok(()) => Ok(settings),
            Err(e) => Err(e),
        }
    }
}

impl Default for Settings {
    fn default() -> (res: Self)
        ensures
            res.network.rpc_endpoints@.len() == 1,
            res.network.rpc_endpoints@[0]@ == "https://api.devnet.solana.com"@,
            res.network.ws_endpoints@.len() == 0,
            res.network.backup_nodes@.len() == 0,
            res.network.max_retries == 3,
            res.network.timeout_ms == 30000,
            res.trading.markets.whitelisted_markets@.len() == 0,
            res.trading.markets.whitelisted_tokens@.len() == 0,
            res.trading.markets.blacklisted_markets@.len() == 0,
            res.trading.markets.min_liquidity == 1000000,
            res.trading.markets.max_spread == 50000,
            res.trading.execution.max_concurrent_trades == 3,
            res.trading.execution.min_profit_threshold == 10000,
            res.trading.execution.max_position_size == 1000000000,
            res.trading.execution.flash_loan_enabled,
            res.trading.execution.flash_loan_sources@.len() == 2,
            res.trading.execution.flash_loan_sources@[0]@ == "solend"@,
            res.trading.execution.flash_loan_sources@[1]@ == "port"@,
            res.trading.execution.execution_strategies@.len() == 2,
            res.trading.execution.execution_strategies@[0]@ == "jit"@,
            res.trading.execution.execution_strategies@[1]@ == "flash_loan"@,
            res.trading.risk.max_loss_threshold == -20000,
            res.trading.risk.daily_volume_limit == 1000000000000,
            res.trading.risk.position_timeout == 30000,
            res.trading.risk.slippage_tolerance == 10000,
            res.security.level == SecurityLevel::High,
            res.security.mev_protection == (MevProtectionSettings {
                enabled: true,
                protection_level: 2,
                sandwich_detection: true,
                frontrunning_detection: true,
                backrunning_detection: true,
            }),
            res.security.quantum_security.enabled,
            res.security.quantum_security.encryption_level@ == "AES-256"@,
            res.security.quantum_security.key_rotation_interval == 3600,
            res.security.transaction_guards == (TransactionGuardSettings {
                signature_verification: true,
                timeout_ms: 5000,
                max_retries: 3,
                require_confirmations: 1,
            }),
            res.monitoring.log_level@ == "info"@,
            res.monitoring.metrics_enabled,
            res.monitoring.alert_endpoints@.len() == 0,
            res.monitoring.performance_tracking,
            res.spec_valid(),
    {
        let mut rpc_endpoints: Vec<String> = Vec::new();
        rpc_endpoints.push("https://api.devnet.solana.com".to_owned());
        let mut flash_loan_sources: Vec<String> = Vec::new();
        flash_loan_sources.push("solend".to_owned());
        flash_loan_sources.push("port".to_owned());
        let mut execution_strategies: Vec<String> = Vec::new();
        execution_strategies.push("jit".to_owned());
        execution_strategies.push("flash_loan".to_owned());
        Settings {
            network: NetworkSettings {
                rpc_endpoints,
                ws_endpoints: Vec::new(),
                backup_nodes: Vec::new(),
                max_retries: 3,
                timeout_ms: 30000,
            },
            trading: TradingSettings {
                markets: MarketSettings {
                    whitelisted_markets: Vec::new(),
                    whitelisted_tokens: Vec::new(),
                    blacklisted_markets: Vec::new(),
                    min_liquidity: 1000000,
                    max_spread: 50000,
                },
                execution: ExecutionSettings {
                    max_concurrent_trades: 3,
                    min_profit_threshold: 10000,
                    max_position_size: 1000000000,
                    flash_loan_enabled: true,
                    flash_loan_sources,
                    execution_strategies,
                },
                risk: RiskSettings {
                    max_loss_threshold: -20000,
                    daily_volume_limit: 1000000000000,
                    position_timeout: 30000,
                    slippage_tolerance: 10000,
                },
            },
            security: SecuritySettings {
                level: SecurityLevel::High,
                mev_protection: MevProtectionSettings {
                    enabled: true,
                    protection_level: 2,
                    sandwich_detection: true,
                    frontrunning_detection: true,
                    backrunning_detection: true,
                },
                quantum_security: QuantumSecuritySettings {
                    enabled: true,
                    encryption_level: "AES-256".to_owned(),
                    key_rotation_interval: 3600,
                },
                transaction_guards: TransactionGuardSettings {
                    signature_verification: true,
                    timeout_ms: 5000,
                    max_retries: 3,
                    require_confirmations: 1,
                },
            },
            monitoring: MonitoringSettings {
                log_level: "info".to_owned(),
                metrics_enabled: true,
                alert_endpoints: Vec::new(),
                performance_tracking: true,
            },
        }
    }
}

impl Clone for Settings {
    fn clone(&self) -> (res: Self)
        ensures
            res.network.rpc_endpoints@ == self.network.rpc_endpoints@,
            res.network.ws_endpoints@ == self.network.ws_endpoints@,
            res.network.backup_nodes@ == self.network.backup_nodes@,
            res.network.max_retries == self.network.max_retries,
            res.network.timeout_ms == self.network.timeout_ms,
            res.trading.markets.whitelisted_markets@ == self.trading.markets.whitelisted_markets@,
            res.trading.markets.whitelisted_tokens@ == self.trading.markets.whitelisted_tokens@,
            res.trading.markets.blacklisted_markets@ == self.trading.markets.blacklisted_markets@,
            res.trading.markets.min_liquidity == self.trading.markets.min_liquidity,
            res.trading.markets.max_spread == self.trading.markets.max_spread,
            res.trading.execution.max_concurrent_trades == self.trading.execution.max_concurrent_trades,
            res.trading.execution.min_profit_threshold == self.trading.execution.min_profit_threshold,
            res.trading.execution.max_position_size == self.trading.execution.max_position_size,
            res.trading.execution.flash_loan_enabled == self.trading.execution.flash_loan_enabled,
            res.trading.execution.flash_loan_sources@ == self.trading.execution.flash_loan_sources@,
            res.trading.execution.execution_strategies@ == self.trading.execution.execution_strategies@,
            res.trading.risk == self.trading.risk,
            res.security.level == self.security.level,
            res.security.mev_protection == self.security.mev_protection,
            res.security.quantum_security.enabled == self.security.quantum_security.enabled,
            res.security.quantum_security.encryption_level@ == self.security.quantum_security.encryption_level@,
            res.security.quantum_security.key_rotation_interval == self.security.quantum_security.key_rotation_interval,
            res.security.transaction_guards == self.security.transaction_guards,
            res.monitoring.log_level@ == self.monitoring.log_level@,
            res.monitoring.metrics_enabled == self.monitoring.metrics_enabled,
            res.monitoring.alert_endpoints@ == self.monitoring.alert_endpoints@,
            res.monitoring.performance_tracking == self.monitoring.performance_tracking,
            res.spec_valid() == self.spec_valid(),
    {
        Settings {
            network: self.network.clone(),
            trading: self.trading.clone(),
            security: self.security.clone(),
            monitoring: self.monitoring.clone(),
        }
    }
}

/// Conservative security profile used when no explicit security
/// configuration is supplied.
pub fn load_security_config() -> (r: SecurityConfig)
    ensures
        r.level == SecurityLevel::High,
        r.max_slippage == 10000,
        r.timeout_ms == 5000,
        r.require_signatures,
{
    SecurityConfig {
        level: SecurityLevel::High,
        max_slippage: 10000,
        timeout_ms: 5000,
        require_signatures: true,
    }
}

} // verus!
