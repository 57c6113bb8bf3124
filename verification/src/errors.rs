//! The failures that the contracts answer with.

use vstd::prelude::*;

verus! {

/// Why an operation was refused. A refused operation changes nothing.
#[derive(Clone, Copy, Debug, PartialEq, Eq, Structural)]
pub enum Error {
    /// The balance held for the account is below the amount asked for.
    InsufficientBalance,
    /// The caller does not own the vault balance.
    NotVaultOwner,
    /// The caller is not the engine that the vault trusts.
    UnauthorizedExecutor,
    /// An amount of zero was given.
    ZeroAmount,
    /// No live rule has this id.
    RuleNotFound,
    /// The caller does not own the rule.
    NotRuleOwner,
    /// The rule is paused or deleted.
    RuleNotActive,
    /// The rule is paused already.
    RuleAlreadyPaused,
    /// The rule is not paused.
    RuleNotPaused,
    /// The rule's condition does not hold.
    ConditionNotMet,
    /// A transfer rule has no recipient, or the engine knows no vault.
    InvalidRuleConfig,
    /// The account holds as many rules as its tier allows.
    MaxRulesReached,
    /// A time-triggered rule is not due yet.
    TriggerTimeNotReached,
    /// The stake recorded for the account is below the amount asked for.
    InsufficientStakingBalance,
    /// No validator is known to delegate to.
    InvalidValidator,
    /// The stake is below the least amount that can be delegated.
    MinimumStakeNotMet,
}

impl Error {
    /// The number that stands for the failure: vault failures from 1,
    /// engine failures from 100, staking failures from 200.
    pub open spec fn code_spec(self) -> u16 {
        match self {
            Error::InsufficientBalance => 1,
            Error::NotVaultOwner => 2,
            Error::UnauthorizedExecutor => 3,
            Error::ZeroAmount => 4,
            Error::RuleNotFound => 100,
            Error::NotRuleOwner => 101,
            Error::RuleNotActive => 102,
            Error::RuleAlreadyPaused => 103,
            Error::RuleNotPaused => 104,
            Error::ConditionNotMet => 105,
            Error::InvalidRuleConfig => 106,
            Error::MaxRulesReached => 107,
            Error::TriggerTimeNotReached => 108,
            Error::InsufficientStakingBalance => 200,
            Error::InvalidValidator => 201,
            Error::MinimumStakeNotMet => 202,
        }
    }

    /// The number that stands for the failure.
    pub fn code(&self) -> (code: u16)
        ensures
            code == self.code_spec(),
    {
        match self {
            Error::InsufficientBalance => 1,
            Error::NotVaultOwner => 2,
            Error::UnauthorizedExecutor => 3,
            Error::ZeroAmount => 4,
            Error::RuleNotFound => 100,
            Error::NotRuleOwner => 101,
            Error::RuleNotActive => 102,
            Error::RuleAlreadyPaused => 103,
            Error::RuleNotPaused => 104,
            Error::ConditionNotMet => 105,
            Error::InvalidRuleConfig => 106,
            Error::MaxRulesReached => 107,
            Error::TriggerTimeNotReached => 108,
            Error::InsufficientStakingBalance => 200,
            Error::InvalidValidator => 201,
            Error::MinimumStakeNotMet => 202,
        }
    }
}

} // verus!
