//! What holds of the vault and the engine over every operation and every
//! sequence of operations.
//!
//! The operations are described as values, and a system of one vault and one
//! engine is run through them by the same transition functions that the
//! contracts of the executable operations are stated in.

use vstd::prelude::*;
use odra_core::prelude::Address;
use crate::account_map::lemma_sum_insert;
use crate::amount::Amount;
use crate::automation_engine::{EngineView, is_live};
use crate::errors::Error;
use crate::types::{ActionType, AutomationRule, RuleStatus, Schedule, TriggerType, can_schedule};
use crate::vault::VaultView;

verus! {

/// A vault, the engine it works with, and the address under which the vault
/// sees the engine's calls.
pub struct SystemView {
    pub vault: VaultView,
    pub engine: EngineView,
    pub engine_address: Address,
}

/// One call of an operation of the vault or of the engine.
#[allow(inconsistent_fields)]
pub enum Operation {
    Deposit { caller: Address, amount: nat },
    Withdraw { caller: Address, amount: nat },
    ExecuteTransfer { caller: Address, owner: Address, amount: nat },
    SetAutomationEngine { engine: Address },
    CreateRule {
        caller: Address,
        now: u64,
        template_name: String,
        trigger_type: TriggerType,
        schedule: Schedule,
        action_type: ActionType,
        recipient: Option<Address>,
        amount: Amount,
    },
    PauseRule { caller: Address, rule_id: u64 },
    ResumeRule { caller: Address, now: u64, rule_id: u64 },
    DeleteRule { caller: Address, rule_id: u64 },
    ExecuteRule { caller: Address, now: u64, rule_id: u64 },
    SetVaultAddress { vault: Address },
}

impl SystemView {
    /// What `op` leads to: the system after it, or the reason for which it
    /// is refused.
    pub open spec fn attempt(self, op: Operation) -> Result<SystemView, Error> {
        match op {
            Operation::Deposit { caller, amount } => match self.vault.deposit(caller, amount) {
                Ok(vault) => Ok(SystemView { vault, ..self }),
                Err(reason) => Err(reason),
            },
            Operation::Withdraw { caller, amount } => match self.vault.withdraw(caller, amount) {
                Ok(vault) => Ok(SystemView { vault, ..self }),
                Err(reason) => Err(reason),
            },
            Operation::ExecuteTransfer { caller, owner, amount } => match self.vault.execute_transfer(
                caller,
                owner,
                amount,
            ) {
                Ok(vault) => Ok(SystemView { vault, ..self }),
                Err(reason) => Err(reason),
            },
            Operation::SetAutomationEngine { engine } => Ok(
                SystemView { vault: self.vault.set_automation_engine(engine), ..self },
            ),
            Operation::CreateRule {
                caller,
                now,
                template_name,
                trigger_type,
                schedule,
                action_type,
                recipient,
                amount,
            } => match self.engine.create_rule(
                caller,
                now,
                template_name,
                trigger_type,
                schedule,
                action_type,
                recipient,
                amount,
            ) {
                Ok(engine) => Ok(SystemView { engine, ..self }),
                Err(reason) => Err(reason),
            },
            Operation::PauseRule { caller, rule_id } => match self.engine.pause_rule(
                caller,
                rule_id,
            ) {
                Ok(engine) => Ok(SystemView { engine, ..self }),
                Err(reason) => Err(reason),
            },
            Operation::ResumeRule { caller, now, rule_id } => match self.engine.resume_rule(
                caller,
                now,
                rule_id,
            ) {
                Ok(engine) => Ok(SystemView { engine, ..self }),
                Err(reason) => Err(reason),
            },
            Operation::DeleteRule { caller, rule_id } => match self.engine.delete_rule(
                caller,
                rule_id,
            ) {
                Ok(engine) => Ok(SystemView { engine, ..self }),
                Err(reason) => Err(reason),
            },
            Operation::ExecuteRule { caller, now, rule_id } => match self.engine.execute_rule(
                self.vault,
                self.engine_address,
                caller,
                now,
                rule_id,
            ) {
                Ok((engine, vault)) => Ok(SystemView { engine, vault, ..self }),
                Err(reason) => Err(reason),
            },
            Operation::SetVaultAddress { vault } => Ok(
                SystemView {
                    engine: EngineView { vault_address: Some(vault), ..self.engine },
                    ..self
                },
            ),
        }
    }

    /// The system after `op`: unchanged where `op` is refused.
    pub open spec fn apply(self, op: Operation) -> SystemView {
        match self.attempt(op) {
            Ok(next) => next,
            Err(_) => self,
        }
    }

    /// The system after the operations `ops`, in their order.
    pub open spec fn run(self, ops: Seq<Operation>) -> SystemView
        decreases ops.len(),
    {
        if ops.len() == 0 {
            self
        } else {
            self.run(ops.drop_last()).apply(ops.last())
        }
    }

    /// The tokens that `op` brings into custody: the amount of a deposit
    /// that succeeds.
    pub open spec fn deposited(self, op: Operation) -> nat {
        match op {
            Operation::Deposit { amount, .. } => if self.attempt(op) is Ok {
                amount
            } else {
                0
            },
            _ => 0,
        }
    }

    /// The account whose balance `op` draws on, if `op` pays out.
    pub open spec fn payer(self, op: Operation) -> Option<Address> {
        if self.attempt(op) is Err {
            None
        } else {
            match op {
                Operation::Withdraw { caller, .. } => Some(caller),
                Operation::ExecuteTransfer { owner, .. } => Some(owner),
                Operation::ExecuteRule { rule_id, .. } => if self.engine.rules[rule_id].pays_out() {
                    Some(self.engine.rules[rule_id].owner)
                } else {
                    None
                },
                _ => None,
            }
        }
    }

    /// The tokens that `op` releases from custody: the amount of a
    /// withdrawal or of a transfer that succeeds, also of one that the
    /// execution of a rule brings about.
    pub open spec fn paid_out(self, op: Operation) -> nat {
        if self.payer(op) is None {
            0
        } else {
            match op {
                Operation::Withdraw { amount, .. } => amount,
                Operation::ExecuteTransfer { amount, .. } => amount,
                Operation::ExecuteRule { rule_id, .. } => self.engine.rules[rule_id].amount.value(),
                _ => 0,
            }
        }
    }

    /// All that the operations `ops` bring into custody.
    pub open spec fn total_deposited(self, ops: Seq<Operation>) -> nat
        decreases ops.len(),
    {
        if ops.len() == 0 {
            0
        } else {
            self.total_deposited(ops.drop_last()) + self.run(ops.drop_last()).deposited(ops.last())
        }
    }

    /// All that the operations `ops` release from custody.
    pub open spec fn total_paid_out(self, ops: Seq<Operation>) -> nat
        decreases ops.len(),
    {
        if ops.len() == 0 {
            0
        } else {
            self.total_paid_out(ops.drop_last()) + self.run(ops.drop_last()).paid_out(ops.last())
        }
    }
}

/// Each operation changes each balance by exactly what it deposits to or
/// pays out of that account. A payment never exceeds the balance it draws
/// on, so no balance falls below zero.
pub proof fn law_balances_follow_operations(sys: SystemView, op: Operation, account: Address)
    ensures
        sys.payer(op) == Some(account) ==> sys.paid_out(op) <= sys.vault.balance_of(account),
        sys.apply(op).vault.balance_of(account) == sys.vault.balance_of(account) + (if op matches Operation::Deposit {
            caller,
            ..
        } && caller == account {
            sys.deposited(op)
        } else {
            0
        }) - (if sys.payer(op) == Some(account) {
            sys.paid_out(op)
        } else {
            0
        }),
{
}

/// One operation keeps a valid vault finite and changes the custody by
/// what it deposits less what it pays out.
pub proof fn law_operation_conserves_custody(sys: SystemView, op: Operation)
    requires
        sys.vault.balances.dom().finite(),
    ensures
        sys.apply(op).vault.balances.dom().finite(),
        sys.apply(op).vault.total() + sys.paid_out(op) == sys.vault.total() + sys.deposited(op),
{
    let vault = sys.vault;
    match op {
        Operation::Deposit { caller, amount } => {
            lemma_sum_insert(vault.balances, caller, vault.balance_of(caller) + amount);
        },
        Operation::Withdraw { caller, amount } => {
            if sys.attempt(op) is Ok {
                lemma_sum_insert(vault.balances, caller, (vault.balance_of(caller) - amount) as nat);
            }
        },
        Operation::ExecuteTransfer { caller, owner, amount } => {
            if sys.attempt(op) is Ok {
                lemma_sum_insert(vault.balances, owner, (vault.balance_of(owner) - amount) as nat);
            }
        },
        Operation::ExecuteRule { caller, now, rule_id } => {
            if sys.attempt(op) is Ok && sys.engine.rules[rule_id].pays_out() {
                let rule = sys.engine.rules[rule_id];
                lemma_sum_insert(
                    vault.balances,
                    rule.owner,
                    (vault.balance_of(rule.owner) - rule.amount.value()) as nat,
                );
            }
        },
        _ => {},
    }
}

/// Balance conservation: after any sequence of operations, the sum of all
/// balances plus all that was paid out equals what the vault held at the
/// start plus all that was deposited.
pub proof fn law_balance_conservation(sys: SystemView, ops: Seq<Operation>)
    requires
        sys.vault.balances.dom().finite(),
    ensures
        sys.run(ops).vault.balances.dom().finite(),
        sys.run(ops).vault.total() + sys.total_paid_out(ops) == sys.vault.total()
            + sys.total_deposited(ops),
    decreases ops.len(),
{
    if ops.len() > 0 {
        law_balance_conservation(sys, ops.drop_last());
        law_operation_conserves_custody(sys.run(ops.drop_last()), ops.last());
    }
}

/// One operation keeps the engine valid, keeps every rule in the store, and
/// moves the next id on by one exactly when it creates a rule.
pub proof fn law_operation_keeps_ids(sys: SystemView, op: Operation)
    requires
        sys.engine.valid(),
        sys.engine.next_rule_id < u64::MAX,
    ensures
        sys.apply(op).engine.valid(),
        sys.apply(op).engine.next_rule_id == sys.engine.next_rule_id + (if op is CreateRule
            && sys.attempt(op) is Ok {
            1int
        } else {
            0int
        }),
        forall|id: u64| #[trigger]
            sys.engine.rules.contains_key(id) ==> sys.apply(op).engine.rules.contains_key(id),
        op is CreateRule && sys.attempt(op) is Ok ==> {
            &&& !sys.engine.rules.contains_key(sys.engine.next_rule_id)
            &&& sys.apply(op).engine.rules.contains_key(sys.engine.next_rule_id)
        },
{
    let engine = sys.engine;
    match op {
        Operation::CreateRule {
            caller,
            now,
            template_name,
            trigger_type,
            schedule,
            action_type,
            recipient,
            amount,
        } => {
            engine.lemma_create_rule_keeps_valid(
                caller,
                now,
                template_name,
                trigger_type,
                schedule,
                action_type,
                recipient,
                amount,
            );
        },
        Operation::PauseRule { caller, rule_id } => {
            engine.lemma_pause_rule_keeps_valid(caller, rule_id);
        },
        Operation::ResumeRule { caller, now, rule_id } => {
            engine.lemma_resume_rule_keeps_valid(caller, now, rule_id);
        },
        Operation::DeleteRule { caller, rule_id } => {
            engine.lemma_delete_rule_keeps_valid(caller, rule_id);
        },
        Operation::ExecuteRule { caller, now, rule_id } => {
            engine.lemma_execute_rule_keeps_valid(
                sys.vault,
                sys.engine_address,
                caller,
                now,
                rule_id,
            );
        },
        Operation::SetVaultAddress { vault } => {
            engine.lemma_vault_address_keeps_valid(Some(vault));
        },
        _ => {},
    }
}

/// Over any sequence of operations the next id never decreases, and no rule
/// leaves the store.
pub proof fn law_next_id_never_decreases(sys: SystemView, ops: Seq<Operation>)
    requires
        sys.engine.valid(),
        sys.engine.next_rule_id + ops.len() <= u64::MAX,
    ensures
        sys.run(ops).engine.valid(),
        sys.engine.next_rule_id <= sys.run(ops).engine.next_rule_id <= sys.engine.next_rule_id
            + ops.len(),
        forall|id: u64| #[trigger]
            sys.engine.rules.contains_key(id) ==> sys.run(ops).engine.rules.contains_key(id),
    decreases ops.len(),
{
    if ops.len() > 0 {
        law_next_id_never_decreases(sys, ops.drop_last());
        law_operation_keeps_ids(sys.run(ops.drop_last()), ops.last());
    }
}

/// Rule ids increase strictly and are never used twice: of two rules that
/// are created one after the other, with any operations between them,
/// deletions too, the later one gets the larger id, and the earlier one is
/// still stored under its own.
pub proof fn law_rule_ids_increase(
    sys: SystemView,
    first: Operation,
    between: Seq<Operation>,
    second: Operation,
)
    requires
        sys.engine.valid(),
        sys.engine.next_rule_id + between.len() + 2 <= u64::MAX,
        first is CreateRule,
        second is CreateRule,
        sys.attempt(first) is Ok,
        sys.apply(first).run(between).attempt(second) is Ok,
    ensures
        ({
            let first_id = sys.engine.next_rule_id;
            let later = sys.apply(first).run(between);
            let second_id = later.engine.next_rule_id;
            &&& first_id < second_id
            &&& later.apply(second).engine.rules.contains_key(first_id)
            &&& later.apply(second).engine.rules.contains_key(second_id)
            &&& later.apply(second).engine.rules[first_id].id == first_id
            &&& later.apply(second).engine.rules[second_id].id == second_id
        }),
{
    law_operation_keeps_ids(sys, first);
    law_next_id_never_decreases(sys.apply(first), between);
    law_operation_keeps_ids(sys.apply(first).run(between), second);
}

/// The list of an account's rules only ever grows, and only at its end:
/// what it held before an operation it holds after it, in the same places.
pub proof fn law_history_is_append_only(sys: SystemView, op: Operation, owner: Address)
    ensures
        sys.engine.rule_ids_of(owner).is_prefix_of(sys.apply(op).engine.rule_ids_of(owner)),
{
}

/// The tier gate: an account may create a rule exactly while fewer of its
/// rules are active or paused than its tier admits, which is two for every
/// account. Creating a rule counts one more. Deleting a rule that is active
/// or paused counts one less, so that an account at its limit can create
/// again; pausing or resuming one frees no place.
pub proof fn law_tier_gate(
    engine: EngineView,
    caller: Address,
    now: u64,
    template_name: String,
    trigger_type: TriggerType,
    schedule: Schedule,
    action_type: ActionType,
    recipient: Option<Address>,
    amount: Amount,
    rule_id: u64,
)
    requires
        engine.valid(),
    ensures
        ({
            let live = engine.live_rules_of(caller);
            let created = engine.create_rule(
                caller,
                now,
                template_name,
                trigger_type,
                schedule,
                action_type,
                recipient,
                amount,
            );
            &&& live == engine.rule_count_of(caller)
            &&& live <= 2
            &&& live < 2 ==> created is Ok
            &&& live == 2 ==> created == Err::<EngineView, Error>(Error::MaxRulesReached)
            &&& created matches Ok(next) ==> next.rule_count_of(caller) == live + 1
            &&& engine.delete_rule(caller, rule_id) matches Ok(next) ==> if is_live(
                engine.rules,
                rule_id,
            ) {
                &&& next.rule_count_of(caller) == live - 1
                &&& next.create_rule(
                    caller,
                    now,
                    template_name,
                    trigger_type,
                    schedule,
                    action_type,
                    recipient,
                    amount,
                ) is Ok
            } else {
                next == engine
            }
            &&& engine.pause_rule(caller, rule_id) matches Ok(next) ==> {
                &&& next.rule_count_of(caller) == live
                &&& live == 2 ==> next.create_rule(
                    caller,
                    now,
                    template_name,
                    trigger_type,
                    schedule,
                    action_type,
                    recipient,
                    amount,
                ) == Err::<EngineView, Error>(Error::MaxRulesReached)
            }
            &&& engine.resume_rule(caller, now, rule_id) matches Ok(next) ==> next.rule_count_of(
                caller,
            ) == live
        }),
{
    assert(engine.rule_count_of(caller) == engine.live_rules_of(caller));
    assert(engine.rule_count_of(caller) <= engine.tier_of(caller).max_rules_spec());
    engine.lemma_delete_rule_keeps_valid(caller, rule_id);
}

/// The count of an account is the number of its rules that are active or
/// paused, and that number never exceeds what the tier admits.
pub proof fn law_live_rules_within_tier(sys: SystemView, ops: Seq<Operation>, owner: Address)
    requires
        sys.engine.valid(),
        sys.engine.next_rule_id + ops.len() <= u64::MAX,
    ensures
        sys.run(ops).engine.live_rules_of(owner) == sys.run(ops).engine.rule_count_of(owner),
        sys.run(ops).engine.live_rules_of(owner) <= sys.run(ops).engine.tier_of(
            owner,
        ).max_rules_spec(),
{
    law_next_id_never_decreases(sys, ops);
    let engine = sys.run(ops).engine;
    assert(engine.rule_count_of(owner) == engine.live_rules_of(owner));
    assert(engine.rule_count_of(owner) <= engine.tier_of(owner).max_rules_spec());
}

/// Deleted is final: a request to delete a rule that is deleted already
/// changes nothing, whoever makes it, and so frees no place in the tier.
pub proof fn law_repeated_delete_changes_nothing(sys: SystemView, caller: Address, rule_id: u64)
    requires
        sys.engine.rules.contains_key(rule_id),
        sys.engine.rules[rule_id].status == RuleStatus::Deleted,
    ensures
        sys.apply(Operation::DeleteRule { caller, rule_id }) == sys,
{
    let op = Operation::DeleteRule { caller, rule_id };
    if sys.attempt(op) is Ok {
        assert(sys.apply(op).engine.rules =~= sys.engine.rules);
    }
}

/// A rule that is created gets the next id, which no rule had before and
/// which is above every id in use; it is active, has never run and is due
/// one period after its creation. Nothing else changes: no other rule, no
/// other account's list or count, and no balance.
pub proof fn law_creation_adds_one_rule(
    sys: SystemView,
    caller: Address,
    now: u64,
    template_name: String,
    trigger_type: TriggerType,
    schedule: Schedule,
    action_type: ActionType,
    recipient: Option<Address>,
    amount: Amount,
)
    requires
        sys.engine.valid(),
        sys.engine.next_rule_id < u64::MAX,
        can_schedule(now, schedule),
    ensures
        ({
            let op = Operation::CreateRule {
                caller,
                now,
                template_name,
                trigger_type,
                schedule,
                action_type,
                recipient,
                amount,
            };
            let new_id = sys.engine.next_rule_id;
            let after = sys.apply(op);
            sys.attempt(op) is Ok ==> {
                &&& !sys.engine.rules.contains_key(new_id)
                &&& forall|id: u64| sys.engine.rules.contains_key(id) ==> id < new_id
                &&& after.engine.next_rule_id == new_id + 1
                &&& after.engine.rules.contains_key(new_id)
                &&& after.engine.rules[new_id] == (AutomationRule {
                    id: new_id,
                    owner: caller,
                    trigger_type,
                    schedule,
                    action_type,
                    status: RuleStatus::Active,
                    template_name,
                    recipient,
                    amount,
                    last_executed: 0,
                    next_execution: (now + schedule.period()) as u64,
                    execution_count: 0,
                })
                &&& after.engine.rules[new_id].next_execution == now + schedule.period()
                &&& forall|id: u64| #[trigger]
                    sys.engine.rules.contains_key(id) ==> after.engine.rules[id]
                        == sys.engine.rules[id]
                &&& after.engine.rule_ids_of(caller) == sys.engine.rule_ids_of(caller).push(new_id)
                &&& after.engine.rule_count_of(caller) == sys.engine.rule_count_of(caller) + 1
                &&& forall|other: Address|
                    other != caller ==> #[trigger] after.engine.rule_ids_of(other)
                        == sys.engine.rule_ids_of(other) && after.engine.rule_count_of(other)
                        == sys.engine.rule_count_of(other)
                &&& after.engine.vault_address == sys.engine.vault_address
                &&& after.vault == sys.vault
            }
        }),
{
    assert(sys.engine.rule_count_of(caller) <= sys.engine.tier_of(caller).max_rules_spec());
}

/// A rule that pays out, is active, and is due or needs no due time, runs
/// where the vault trusts the engine and holds enough for the owner: the
/// owner's balance falls by the rule's amount, no other balance changes, and
/// the rule has run at the time of the call, once more than before, and is
/// due one period later.
pub proof fn law_due_payment_runs(sys: SystemView, caller: Address, now: u64, rule_id: u64)
    requires
        sys.engine.rules.contains_key(rule_id),
        ({
            let rule = sys.engine.rules[rule_id];
            &&& rule.execution_gate(caller, now) is Ok
            &&& rule.pays_out()
            &&& rule.recipient is Some
            &&& sys.engine.vault_address is Some
            &&& sys.vault.trusts(sys.engine_address)
            &&& rule.amount.value() <= sys.vault.balance_of(rule.owner)
            &&& rule.can_record(now)
        }),
    ensures
        ({
            let op = Operation::ExecuteRule { caller, now, rule_id };
            let rule = sys.engine.rules[rule_id];
            let after = sys.apply(op);
            &&& sys.attempt(op) is Ok
            &&& sys.payer(op) == Some(rule.owner)
            &&& sys.paid_out(op) == rule.amount.value()
            &&& after.vault.balance_of(rule.owner) == sys.vault.balance_of(rule.owner)
                - rule.amount.value()
            &&& forall|other: Address|
                other != rule.owner ==> #[trigger] after.vault.balance_of(other)
                    == sys.vault.balance_of(other)
            &&& after.engine.rules[rule_id].status == RuleStatus::Active
            &&& after.engine.rules[rule_id].last_executed == now
            &&& after.engine.rules[rule_id].next_execution == now + rule.schedule.period()
            &&& after.engine.rules[rule_id].execution_count == rule.execution_count + 1
        }),
{
}

/// An execution changes the rule that it runs and, where the rule pays out,
/// the balance of the rule's owner, and nothing else: no other rule, no
/// list, no count, not the next id, and not where the vault lives or whom
/// it trusts.
pub proof fn law_execution_touches_only_its_rule(
    sys: SystemView,
    caller: Address,
    now: u64,
    rule_id: u64,
)
    ensures
        ({
            let op = Operation::ExecuteRule { caller, now, rule_id };
            let after = sys.apply(op);
            &&& after.engine.next_rule_id == sys.engine.next_rule_id
            &&& after.engine.user_rules == sys.engine.user_rules
            &&& after.engine.user_rule_count == sys.engine.user_rule_count
            &&& after.engine.vault_address == sys.engine.vault_address
            &&& after.engine_address == sys.engine_address
            &&& after.vault.authorized_engine == sys.vault.authorized_engine
            &&& forall|id: u64|
                id != rule_id && #[trigger] sys.engine.rules.contains_key(id)
                    ==> after.engine.rules.contains_key(id) && after.engine.rules[id]
                    == sys.engine.rules[id]
            &&& sys.attempt(op) is Ok ==> after.engine.rules[rule_id]
                == sys.engine.rules[rule_id].executed_at(now)
            &&& forall|other: Address|
                sys.payer(op) != Some(other) ==> #[trigger] after.vault.balance_of(other)
                    == sys.vault.balance_of(other)
        }),
{
}

/// A rule that is deleted stays in the store, under its id and deleted,
/// whatever operations follow.
pub proof fn law_deleted_rule_stays(sys: SystemView, ops: Seq<Operation>, rule_id: u64)
    requires
        sys.engine.valid(),
        sys.engine.next_rule_id + ops.len() <= u64::MAX,
        sys.engine.rules.contains_key(rule_id),
        sys.engine.rules[rule_id].status == RuleStatus::Deleted,
    ensures
        sys.run(ops).engine.rules.contains_key(rule_id),
        sys.run(ops).engine.rules[rule_id].id == rule_id,
        sys.run(ops).engine.rules[rule_id].owner == sys.engine.rules[rule_id].owner,
        sys.run(ops).engine.rules[rule_id].status == RuleStatus::Deleted,
    decreases ops.len(),
{
    if ops.len() > 0 {
        law_deleted_rule_stays(sys, ops.drop_last(), rule_id);
        law_next_id_never_decreases(sys, ops.drop_last());
        law_status_machine(sys.run(ops.drop_last()), ops.last(), rule_id);
    }
}

/// The status machine: an operation leaves the status of a rule as it is,
/// or pauses an active rule, or resumes a paused rule, or deletes a rule
/// that is active or paused; each only by the operation of that name on that
/// rule. A deleted rule stays deleted. The rule keeps its id and its owner.
pub proof fn law_status_machine(sys: SystemView, op: Operation, rule_id: u64)
    requires
        sys.engine.valid(),
        sys.engine.rules.contains_key(rule_id),
    ensures
        sys.apply(op).engine.rules.contains_key(rule_id),
        sys.apply(op).engine.rules[rule_id].id == sys.engine.rules[rule_id].id,
        sys.apply(op).engine.rules[rule_id].owner == sys.engine.rules[rule_id].owner,
        ({
            let owner = sys.engine.rules[rule_id].owner;
            let before = sys.engine.rules[rule_id].status;
            let after = sys.apply(op).engine.rules[rule_id].status;
            ||| after == before
            ||| {
                &&& before == RuleStatus::Active
                &&& after == RuleStatus::Paused
                &&& sys.attempt(op) is Ok
                &&& op == (Operation::PauseRule { caller: owner, rule_id })
            }
            ||| {
                &&& before == RuleStatus::Paused
                &&& after == RuleStatus::Active
                &&& sys.attempt(op) is Ok
                &&& op matches Operation::ResumeRule { caller, rule_id: id, .. }
                &&& caller == owner
                &&& id == rule_id
            }
            ||| {
                &&& before != RuleStatus::Deleted
                &&& after == RuleStatus::Deleted
                &&& sys.attempt(op) is Ok
                &&& op == (Operation::DeleteRule { caller: owner, rule_id })
            }
        }),
{
}

/// The schedule of a rule: only resuming or executing the rule moves its due
/// time, to one period after the time of the operation, whatever the due
/// time was before; only executing it records a run. What the rule is and
/// does never changes.
pub proof fn law_rule_changes_only_by_its_operations(sys: SystemView, op: Operation, rule_id: u64)
    requires
        sys.engine.valid(),
        sys.engine.rules.contains_key(rule_id),
    ensures
        ({
            let before = sys.engine.rules[rule_id];
            let after = sys.apply(op).engine.rules[rule_id];
            let hit = sys.attempt(op) is Ok;
            &&& after.trigger_type == before.trigger_type
            &&& after.schedule == before.schedule
            &&& after.action_type == before.action_type
            &&& after.template_name == before.template_name
            &&& after.recipient == before.recipient
            &&& after.amount == before.amount
            &&& match op {
                Operation::ExecuteRule { now, rule_id: id, .. } if hit && id == rule_id => {
                    &&& after.last_executed == now
                    &&& can_schedule(now, before.schedule) ==> after.next_execution == now
                        + before.schedule.period()
                    &&& before.execution_count < u32::MAX ==> after.execution_count
                        == before.execution_count + 1
                },
                Operation::ResumeRule { now, rule_id: id, .. } if hit && id == rule_id => {
                    &&& after.last_executed == before.last_executed
                    &&& can_schedule(now, before.schedule) ==> after.next_execution == now
                        + before.schedule.period()
                    &&& after.execution_count == before.execution_count
                },
                _ => {
                    &&& after.last_executed == before.last_executed
                    &&& after.next_execution == before.next_execution
                    &&& after.execution_count == before.execution_count
                },
            }
        }),
{
}

/// A time-triggered rule that is active and not yet due cannot be executed:
/// the attempt fails with `TriggerTimeNotReached`, whoever makes it, and
/// changes nothing.
pub proof fn law_early_execution_changes_nothing(
    sys: SystemView,
    caller: Address,
    now: u64,
    rule_id: u64,
)
    requires
        sys.engine.rules.contains_key(rule_id),
        sys.engine.rules[rule_id].status == RuleStatus::Active,
        sys.engine.rules[rule_id].trigger_type == TriggerType::Time,
        now < sys.engine.rules[rule_id].next_execution,
    ensures
        sys.attempt(Operation::ExecuteRule { caller, now, rule_id }) == Err::<SystemView, Error>(
            Error::TriggerTimeNotReached,
        ),
        sys.apply(Operation::ExecuteRule { caller, now, rule_id }) == sys,
{
}

/// Only the engine that the vault trusts moves funds for others: a transfer
/// asked for by anyone else fails with `UnauthorizedExecutor` and changes no
/// balance.
pub proof fn law_unauthorized_transfer_changes_nothing(
    sys: SystemView,
    caller: Address,
    owner: Address,
    amount: nat,
)
    requires
        sys.vault.authorized_engine != Some(caller),
    ensures
        sys.attempt(Operation::ExecuteTransfer { caller, owner, amount }) == Err::<
            SystemView,
            Error,
        >(Error::UnauthorizedExecutor),
        sys.apply(Operation::ExecuteTransfer { caller, owner, amount }) == sys,
{
}

} // verus!
