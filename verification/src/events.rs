//! The records that the contracts hand out, one for each change of state.
//!
//! An operation that succeeds returns its record; the caller appends it to
//! the audit log. An operation that fails returns none.

use vstd::prelude::*;
use odra_core::prelude::Address;
use crate::amount::Amount;

verus! {

/// Tokens were added to an account's vault balance.
#[derive(Clone, Copy, Debug, PartialEq, Eq)]
pub struct Deposited {
    pub owner: Address,
    pub amount: Amount,
    pub new_balance: Amount,
}

/// Tokens left an account's vault balance and are owed to the account itself.
#[derive(Clone, Copy, Debug, PartialEq, Eq)]
pub struct Withdrawn {
    pub owner: Address,
    pub amount: Amount,
    pub new_balance: Amount,
}

/// The trusted engine moved tokens out of `owner`'s vault balance; they are
/// owed to `recipient`.
#[derive(Clone, Copy, Debug, PartialEq, Eq)]
pub struct AutomationExecuted {
    pub owner: Address,
    pub rule_id: u64,
    pub recipient: Address,
    pub amount: Amount,
}

/// A rule was created.
#[derive(Clone, Debug, PartialEq, Eq)]
pub struct RuleCreated {
    pub rule_id: u64,
    pub owner: Address,
    pub template_type: String,
}

/// A rule was paused.
#[derive(Clone, Copy, Debug, PartialEq, Eq)]
pub struct RulePaused {
    pub rule_id: u64,
    pub owner: Address,
}

/// A rule was resumed.
#[derive(Clone, Copy, Debug, PartialEq, Eq)]
pub struct RuleResumed {
    pub rule_id: u64,
    pub owner: Address,
}

/// A rule was deleted.
#[derive(Clone, Copy, Debug, PartialEq, Eq)]
pub struct RuleDeleted {
    pub rule_id: u64,
    pub owner: Address,
}

/// A rule was executed.
#[derive(Clone, Copy, Debug, PartialEq, Eq)]
pub struct RuleExecuted {
    pub rule_id: u64,
    pub owner: Address,
    pub executed_at: u64,
}

/// The execution of a rule failed.
#[derive(Clone, Copy, Debug, PartialEq, Eq)]
pub struct RuleExecutionFailed {
    pub rule_id: u64,
    pub owner: Address,
    pub error_code: u32,
}

/// Staking rewards were added to an account's recorded stake.
#[derive(Clone, Copy, Debug, PartialEq, Eq)]
pub struct RewardsCompounded {
    pub owner: Address,
    pub amount: Amount,
}

/// Tokens were withdrawn from an account's stake.
#[derive(Clone, Copy, Debug, PartialEq, Eq)]
pub struct Unstaked {
    pub owner: Address,
    pub amount: Amount,
}

} // verus!
