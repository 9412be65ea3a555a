pub mod dex;
pub mod engine;
pub mod math;
pub mod profit;
pub mod settings;
pub mod strategies;
pub mod transaction;
pub mod types;
