//! Rule-driven movement of funds out of a custodial vault.
//!
//! Account holders deposit tokens into the [`vault::AutomationVault`] and
//! register rules with the [`automation_engine::AutomationEngine`]; a keeper
//! asks the engine to execute the rules that are due, and the engine asks the
//! vault to release the funds.

pub mod identity;
pub mod amount;
pub mod errors;
pub mod events;
pub mod types;
pub mod account_map;
pub mod vault;
pub mod automation_engine;
pub mod laws;
pub mod staking_adapter;
