//! The rule record, the closed sets of kinds it is made of, and the steps
//! that a single rule can take.

use vstd::prelude::*;
use odra_core::prelude::Address;
use crate::amount::Amount;
use crate::errors::Error;
use crate::events::{RuleDeleted, RuleExecuted, RulePaused, RuleResumed};

verus! {

/// Seconds in a day.
pub const SECONDS_PER_DAY: u64 = 86_400;

/// Seconds in a week.
pub const SECONDS_PER_WEEK: u64 = 604_800;

/// Seconds in a month of thirty days.
pub const SECONDS_PER_MONTH: u64 = 2_592_000;

/// What makes a rule eligible for execution.
#[derive(Clone, Copy, Debug, PartialEq, Eq, Structural)]
pub enum TriggerType {
    /// The rule comes due at a point in time.
    Time,
    /// The rule depends on a condition. No condition is evaluated yet: anyone
    /// may execute such a rule at any time.
    Condition,
    /// Only the owner executes the rule, at any time.
    Manual,
}

/// How far apart the executions of a time-triggered rule lie.
#[derive(Clone, Copy, Debug, PartialEq, Eq, Structural)]
pub enum Schedule {
    Daily,
    Weekly,
    Monthly,
}

/// What a rule does when it is executed.
#[derive(Clone, Copy, Debug, PartialEq, Eq, Structural)]
pub enum ActionType {
    /// Pay the rule's amount to its recipient.
    Transfer,
    /// Pay several recipients. For now this pays the single recipient, like
    /// `Transfer`.
    Split,
    /// Restake staking rewards. For now this moves nothing.
    Compound,
}

/// Where a rule stands in its life.
#[derive(Clone, Copy, Debug, PartialEq, Eq, Structural)]
pub enum RuleStatus {
    Active,
    Paused,
    /// Final: a deleted rule stays deleted.
    Deleted,
}

/// A payment of `amount` to `recipient`.
#[derive(Clone, Copy, Debug, PartialEq, Eq)]
pub struct TransferAction {
    pub recipient: Address,
    pub amount: Amount,
}

/// One recipient's share of a split payment, in percent.
#[derive(Clone, Copy, Debug, PartialEq, Eq)]
pub struct SplitRecipient {
    pub recipient: Address,
    pub percentage: u8,
}

/// What the engine asks of the vault when a rule pays out.
#[derive(Clone, Copy, Debug, PartialEq, Eq)]
pub struct TransferRequest {
    pub owner: Address,
    pub recipient: Address,
    pub amount: Amount,
    pub rule_id: u64,
}

/// An automation rule as the engine stores it.
#[derive(Clone, Debug, PartialEq, Eq)]
pub struct AutomationRule {
    /// Unique, assigned in increasing order from 1.
    pub id: u64,
    pub owner: Address,
    pub trigger_type: TriggerType,
    /// Always present, read only for time triggers.
    pub schedule: Schedule,
    pub action_type: ActionType,
    pub status: RuleStatus,
    /// For display only.
    pub template_name: String,
    /// Needed by `Transfer` and `Split`.
    pub recipient: Option<Address>,
    /// What `Transfer` and `Split` pay.
    pub amount: Amount,
    /// When the rule last ran; 0 before the first run.
    pub last_executed: u64,
    /// When an active time-triggered rule comes due.
    pub next_execution: u64,
    /// How often the rule has run.
    pub execution_count: u32,
}

/// The class of an account, by which the number of its rules is bounded.
#[derive(Clone, Copy, Debug, PartialEq, Eq, Structural)]
pub enum StakingTier {
    Starter,
    Bronze,
    Silver,
    Gold,
}

impl Schedule {
    /// The length of one period in seconds.
    pub open spec fn period(self) -> nat {
        match self {
            Schedule::Daily => 86_400,
            Schedule::Weekly => 604_800,
            Schedule::Monthly => 2_592_000,
        }
    }

    /// The length of one period in seconds.
    pub fn period_seconds(&self) -> (seconds: u64)
        ensures
            seconds == self.period(),
    {
        match self {
            Schedule::Daily => SECONDS_PER_DAY,
            Schedule::Weekly => SECONDS_PER_WEEK,
            Schedule::Monthly => SECONDS_PER_MONTH,
        }
    }
}

/// Whether a rule with this schedule can be scheduled from `from_time`
/// without leaving the range of a timestamp.
pub open spec fn can_schedule(from_time: u64, schedule: Schedule) -> bool {
    from_time + schedule.period() <= u64::MAX
}

/// The next due time of a rule that is scheduled at `from_time`: one period
/// later, whatever the rule's earlier due time was.
pub fn calculate_next_execution(from_time: u64, schedule: &Schedule) -> (next: u64)
    requires
        can_schedule(from_time, *schedule),
    ensures
        next == from_time + schedule.period(),
{
    from_time + schedule.period_seconds()
}

/// Whether a rule with this schedule can be scheduled from `from_time`
/// without leaving the range of a timestamp.
pub fn can_schedule_at(from_time: u64, schedule: &Schedule) -> (ok: bool)
    ensures
        ok == can_schedule(from_time, *schedule),
{
    from_time <= u64::MAX - schedule.period_seconds()
}

/// Admits one more rule for an account of `tier` that has `count` rules
/// counted, and gives the new count, or refuses with `MaxRulesReached`.
pub fn admit_rule(count: u32, tier: StakingTier) -> (outcome: Result<u32, Error>)
    ensures
        outcome == if tier.admits(count) {
            Ok::<u32, Error>((count + 1) as u32)
        } else {
            Err::<u32, Error>(Error::MaxRulesReached)
        },
{
    if count >= tier.max_rules() {
        return Err(Error::MaxRulesReached);
    }
    Ok(count + 1)
}

/// The id of a new rule, the id that the rule after it gets, and the list of
/// its owner's rules with the new id at the end.
pub fn assign_rule_id(next_rule_id: u64, user_rule_ids: Vec<u64>) -> (assigned: (u64, u64, Vec<u64>))
    requires
        next_rule_id < u64::MAX,
    ensures
        assigned.0 == next_rule_id,
        assigned.1 == next_rule_id + 1,
        assigned.2@ == user_rule_ids@.push(next_rule_id),
{
    let mut ids = user_rule_ids;
    ids.push(next_rule_id);
    (next_rule_id, next_rule_id + 1, ids)
}

/// The count of an account's rules after one of them was deleted: one less
/// where the rule was active or paused before, and the same where it was
/// deleted already. The count never falls below zero.
pub open spec fn count_after_delete_spec(count: u32, status_before: RuleStatus) -> u32 {
    if status_before != RuleStatus::Deleted && count > 0 {
        (count - 1) as u32
    } else {
        count
    }
}

/// The count of an account's rules after one of them was deleted.
pub fn count_after_delete(count: u32, status_before: RuleStatus) -> (rest: u32)
    ensures
        rest == count_after_delete_spec(count, status_before),
{
    match status_before {
        RuleStatus::Deleted => count,
        _ => if count > 0 {
            count - 1
        } else {
            count
        },
    }
}

impl StakingTier {
    /// The largest number of rules an account of this tier may hold at once.
    /// `Gold` is bounded by the counter's range only.
    pub open spec fn max_rules_spec(self) -> u32 {
        match self {
            StakingTier::Starter => 2,
            StakingTier::Bronze => 5,
            StakingTier::Silver => 10,
            StakingTier::Gold => u32::MAX,
        }
    }

    /// The tier that holdings of `balance` motes earn: `Gold` from 1000
    /// tokens, `Silver` from 500, `Bronze` from 100, `Starter` below.
    pub open spec fn of_balance(balance: nat) -> StakingTier {
        if balance >= 1_000_000_000_000 {
            StakingTier::Gold
        } else if balance >= 500_000_000_000 {
            StakingTier::Silver
        } else if balance >= 100_000_000_000 {
            StakingTier::Bronze
        } else {
            StakingTier::Starter
        }
    }

    /// Whether an account of this tier that holds `count` rules may create
    /// one more.
    pub open spec fn admits(self, count: u32) -> bool {
        count < self.max_rules_spec()
    }

    /// The largest number of rules an account of this tier may hold at once.
    pub fn max_rules(&self) -> (max: u32)
        ensures
            max == self.max_rules_spec(),
    {
        match self {
            StakingTier::Starter => 2,
            StakingTier::Bronze => 5,
            StakingTier::Silver => 10,
            StakingTier::Gold => u32::MAX,
        }
    }

    /// The tier that holdings of `balance` motes earn.
    pub fn from_balance(balance: Amount) -> (tier: StakingTier)
        ensures
            tier == StakingTier::of_balance(balance.value()),
    {
        let cspr_1000 = Amount::from_u64(1_000_000_000_000);
        let cspr_500 = Amount::from_u64(500_000_000_000);
        let cspr_100 = Amount::from_u64(100_000_000_000);
        if !balance.less_than(&cspr_1000) {
            StakingTier::Gold
        } else if !balance.less_than(&cspr_500) {
            StakingTier::Silver
        } else if !balance.less_than(&cspr_100) {
            StakingTier::Bronze
        } else {
            StakingTier::Starter
        }
    }
}

impl AutomationRule {
    /// A fresh rule: active, never run.
    pub fn new(
        id: u64,
        owner: Address,
        template_name: String,
        trigger_type: TriggerType,
        schedule: Schedule,
        action_type: ActionType,
        recipient: Option<Address>,
        amount: Amount,
        next_execution: u64,
    ) -> (rule: AutomationRule)
        ensures
            rule == (AutomationRule {
                id,
                owner,
                trigger_type,
                schedule,
                action_type,
                status: RuleStatus::Active,
                template_name,
                recipient,
                amount,
                last_executed: 0,
                next_execution,
                execution_count: 0,
            }),
    {
        AutomationRule {
            id,
            owner,
            trigger_type,
            schedule,
            action_type,
            status: RuleStatus::Active,
            template_name,
            recipient,
            amount,
            last_executed: 0,
            next_execution,
            execution_count: 0,
        }
    }

    /// A copy of the rule.
    pub fn duplicate(&self) -> (copy: AutomationRule)
        ensures
            copy == *self,
    {
        AutomationRule {
            id: self.id,
            owner: self.owner,
            trigger_type: self.trigger_type,
            schedule: self.schedule,
            action_type: self.action_type,
            status: self.status,
            template_name: self.template_name.clone(),
            recipient: self.recipient,
            amount: self.amount,
            last_executed: self.last_executed,
            next_execution: self.next_execution,
            execution_count: self.execution_count,
        }
    }

    /// The rule with another status and nothing else changed.
    pub open spec fn with_status(self, status: RuleStatus) -> AutomationRule {
        AutomationRule { status, ..self }
    }

    /// What `caller`'s request to pause the rule leads to: the paused rule,
    /// or the reason for which the request is refused.
    pub open spec fn paused_by(self, caller: Address) -> Result<AutomationRule, Error> {
        if self.owner != caller {
            Err(Error::NotRuleOwner)
        } else {
            match self.status {
                RuleStatus::Paused => Err(Error::RuleAlreadyPaused),
                RuleStatus::Deleted => Err(Error::RuleNotFound),
                RuleStatus::Active => Ok(self.with_status(RuleStatus::Paused)),
            }
        }
    }

    /// What `caller`'s request to resume the rule at time `now` leads to: the
    /// active rule, due one period after `now`, or the reason for which the
    /// request is refused.
    pub open spec fn resumed_by(self, caller: Address, now: u64) -> Result<AutomationRule, Error> {
        if self.owner != caller {
            Err(Error::NotRuleOwner)
        } else {
            match self.status {
                RuleStatus::Active => Err(Error::RuleNotPaused),
                RuleStatus::Deleted => Err(Error::RuleNotFound),
                RuleStatus::Paused => Ok(
                    AutomationRule {
                        status: RuleStatus::Active,
                        next_execution: (now + self.schedule.period()) as u64,
                        ..self
                    },
                ),
            }
        }
    }

    /// What `caller`'s request to delete the rule leads to: the deleted rule,
    /// or the refusal of a caller who is not the owner. A rule that is
    /// deleted already stays as it is.
    pub open spec fn deleted_by(self, caller: Address) -> Result<AutomationRule, Error> {
        if self.owner != caller {
            Err(Error::NotRuleOwner)
        } else {
            Ok(self.with_status(RuleStatus::Deleted))
        }
    }

    /// Whether `caller` may execute the rule at time `now`. Only an active
    /// rule runs; a time-triggered rule runs for anyone once it is due, a
    /// manual rule for its owner at any time, a conditional rule for anyone
    /// at any time.
    pub open spec fn execution_gate(self, caller: Address, now: u64) -> Result<(), Error> {
        if self.status != RuleStatus::Active {
            Err(Error::RuleNotActive)
        } else {
            match self.trigger_type {
                TriggerType::Time => if now < self.next_execution {
                    Err(Error::TriggerTimeNotReached)
                } else {
                    Ok(())
                },
                TriggerType::Manual => if self.owner != caller {
                    Err(Error::NotRuleOwner)
                } else {
                    Ok(())
                },
                TriggerType::Condition => Ok(()),
            }
        }
    }

    /// Whether executing the rule pays out of the vault.
    pub open spec fn pays_out(self) -> bool {
        self.action_type == ActionType::Transfer || self.action_type == ActionType::Split
    }

    /// The payment that executing the rule asks of the vault: none for a
    /// rule that does not pay out, and a refusal for one that pays out but
    /// names no recipient.
    pub open spec fn payment(self) -> Result<Option<TransferRequest>, Error> {
        if !self.pays_out() {
            Ok(None)
        } else {
            match self.recipient {
                Some(recipient) => Ok(
                    Some(
                        TransferRequest {
                            owner: self.owner,
                            recipient,
                            amount: self.amount,
                            rule_id: self.id,
                        },
                    ),
                ),
                None => Err(Error::InvalidRuleConfig),
            }
        }
    }

    /// Whether the bookkeeping of an execution at time `now` stays within the
    /// range of the rule's timestamp and counter.
    pub open spec fn can_record(self, now: u64) -> bool {
        can_schedule(now, self.schedule) && self.execution_count < u32::MAX
    }

    /// The rule after an execution at time `now`: it ran at `now`, is due one
    /// period after `now`, and has run once more.
    pub open spec fn executed_at(self, now: u64) -> AutomationRule {
        AutomationRule {
            last_executed: now,
            next_execution: (now + self.schedule.period()) as u64,
            execution_count: (self.execution_count + 1) as u32,
            ..self
        }
    }

    /// Whether the bookkeeping of an execution at time `now` stays within the
    /// range of the rule's timestamp and counter.
    pub fn can_record_at(&self, now: u64) -> (ok: bool)
        ensures
            ok == self.can_record(now),
    {
        can_schedule_at(now, &self.schedule) && self.execution_count < u32::MAX
    }

    /// Pauses the rule for its owner.
    pub fn pause(&mut self, caller: Address) -> (outcome: Result<RulePaused, Error>)
        ensures
            match old(self).paused_by(caller) {
                Ok(paused) => *final(self) == paused && outcome == Ok::<RulePaused, Error>(
                    RulePaused { rule_id: old(self).id, owner: caller },
                ),
                Err(reason) => *final(self) == *old(self) && outcome == Err::<RulePaused, Error>(
                    reason,
                ),
            },
    {
        if self.owner != caller {
            return Err(Error::NotRuleOwner);
        }
        match self.status {
            RuleStatus::Paused => Err(Error::RuleAlreadyPaused),
            RuleStatus::Deleted => Err(Error::RuleNotFound),
            RuleStatus::Active => {
                self.status = RuleStatus::Paused;
                Ok(RulePaused { rule_id: self.id, owner: caller })
            },
        }
    }

    /// Resumes the rule for its owner and schedules it one period after
    /// `now`.
    pub fn resume(&mut self, caller: Address, now: u64) -> (outcome: Result<RuleResumed, Error>)
        requires
            old(self).resumed_by(caller, now) is Ok ==> can_schedule(now, old(self).schedule),
        ensures
            match old(self).resumed_by(caller, now) {
                Ok(resumed) => *final(self) == resumed && outcome == Ok::<RuleResumed, Error>(
                    RuleResumed { rule_id: old(self).id, owner: caller },
                ),
                Err(reason) => *final(self) == *old(self) && outcome == Err::<RuleResumed, Error>(
                    reason,
                ),
            },
    {
        if self.owner != caller {
            return Err(Error::NotRuleOwner);
        }
        match self.status {
            RuleStatus::Active => Err(Error::RuleNotPaused),
            RuleStatus::Deleted => Err(Error::RuleNotFound),
            RuleStatus::Paused => {
                self.status = RuleStatus::Active;
                self.next_execution = calculate_next_execution(now, &self.schedule);
                Ok(RuleResumed { rule_id: self.id, owner: caller })
            },
        }
    }

    /// Deletes the rule for its owner. On a rule that is deleted already the
    /// request succeeds again and leaves the rule as it is.
    pub fn delete(&mut self, caller: Address) -> (outcome: Result<RuleDeleted, Error>)
        ensures
            match old(self).deleted_by(caller) {
                Ok(deleted) => *final(self) == deleted && outcome == Ok::<RuleDeleted, Error>(
                    RuleDeleted { rule_id: old(self).id, owner: caller },
                ),
                Err(reason) => *final(self) == *old(self) && outcome == Err::<RuleDeleted, Error>(
                    reason,
                ),
            },
    {
        if self.owner != caller {
            return Err(Error::NotRuleOwner);
        }
        self.status = RuleStatus::Deleted;
        Ok(RuleDeleted { rule_id: self.id, owner: caller })
    }

    /// Decides whether `caller` may execute the rule at time `now`.
    pub fn check_execution(&self, caller: Address, now: u64) -> (outcome: Result<(), Error>)
        ensures
            outcome == self.execution_gate(caller, now),
    {
        match self.status {
            RuleStatus::Active => {},
            _ => {
                return Err(Error::RuleNotActive);
            },
        }
        match self.trigger_type {
            TriggerType::Time => {
                if now < self.next_execution {
                    return Err(Error::TriggerTimeNotReached);
                }
            },
            TriggerType::Manual => {
                if self.owner != caller {
                    return Err(Error::NotRuleOwner);
                }
            },
            TriggerType::Condition => {},
        }
        Ok(())
    }

    /// The payment that executing the rule asks of the vault.
    pub fn transfer_request(&self) -> (outcome: Result<Option<TransferRequest>, Error>)
        ensures
            outcome == self.payment(),
    {
        match self.action_type {
            ActionType::Transfer | ActionType::Split => match self.recipient {
                Some(recipient) => Ok(
                    Some(
                        TransferRequest {
                            owner: self.owner,
                            recipient,
                            amount: self.amount,
                            rule_id: self.id,
                        },
                    ),
                ),
                None => Err(Error::InvalidRuleConfig),
            },
            ActionType::Compound => Ok(None),
        }
    }

    /// Does the bookkeeping of an execution at time `now`.
    pub fn record_execution(&mut self, now: u64) -> (event: RuleExecuted)
        requires
            old(self).can_record(now),
        ensures
            *final(self) == old(self).executed_at(now),
            event == (RuleExecuted { rule_id: old(self).id, owner: old(self).owner, executed_at: now }),
    {
        self.last_executed = now;
        self.next_execution = calculate_next_execution(now, &self.schedule);
        self.execution_count = self.execution_count + 1;
        RuleExecuted { rule_id: self.id, owner: self.owner, executed_at: now }
    }
}

} // verus!
