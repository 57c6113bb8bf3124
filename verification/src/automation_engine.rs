//! The engine: the rules of all accounts, their life cycle and their
//! execution.
//!
//! Creating, pausing, resuming and deleting a rule moves no funds. Executing
//! one asks the vault to pay, where the rule's action is a payment, and then
//! schedules the rule anew. Every operation takes the caller's identity and,
//! where it needs it, the current time; one that succeeds returns the record
//! of what it did.

use vstd::prelude::*;
use odra_core::prelude::Address;
use crate::account_map::AccountMap;
use crate::amount::Amount;
use crate::errors::Error;
use crate::events::{
    AutomationExecuted,
    RuleCreated,
    RuleDeleted,
    RuleExecuted,
    RulePaused,
    RuleResumed,
};
use crate::types::{
    ActionType,
    AutomationRule,
    RuleStatus,
    Schedule,
    StakingTier,
    TriggerType,
    admit_rule,
    assign_rule_id,
    calculate_next_execution,
    can_schedule,
    can_schedule_at,
    count_after_delete,
    count_after_delete_spec,
};
use crate::vault::{AutomationVault, VaultView};

verus! {

/// The lists that a map of vectors stands for.
pub open spec fn lists_of(m: Map<Address, Vec<u64>>) -> Map<Address, Seq<u64>> {
    m.map_values(|ids: Vec<u64>| ids@)
}

/// Whether rule `rule_id` exists and is not deleted.
pub open spec fn is_live(rules: Map<u64, AutomationRule>, rule_id: u64) -> bool {
    rules.contains_key(rule_id) && rules[rule_id].status != RuleStatus::Deleted
}

/// How many of the rules `ids` exist and are not deleted.
pub open spec fn live_among(rules: Map<u64, AutomationRule>, ids: Seq<u64>) -> nat
    decreases ids.len(),
{
    if ids.len() == 0 {
        0
    } else {
        live_among(rules, ids.drop_last()) + (if is_live(rules, ids.last()) {
            1nat
        } else {
            0nat
        })
    }
}

/// Two stores in which the rules `ids` are live alike hold as many live
/// rules among them.
pub proof fn lemma_live_same(
    a: Map<u64, AutomationRule>,
    b: Map<u64, AutomationRule>,
    ids: Seq<u64>,
)
    requires
        forall|i: int| 0 <= i < ids.len() ==> is_live(a, #[trigger] ids[i]) == is_live(b, ids[i]),
    ensures
        live_among(a, ids) == live_among(b, ids),
    decreases ids.len(),
{
    if ids.len() > 0 {
        let front = ids.drop_last();
        assert forall|i: int| 0 <= i < front.len() implies is_live(a, #[trigger] front[i])
            == is_live(b, front[i]) by {
            assert(front[i] == ids[i]);
        }
        lemma_live_same(a, b, front);
        assert(ids.last() == ids[ids.len() - 1]);
    }
}

/// One more id at the end of a list counts once more where its rule is live.
pub proof fn lemma_live_push(rules: Map<u64, AutomationRule>, ids: Seq<u64>, rule_id: u64)
    ensures
        live_among(rules, ids.push(rule_id)) == live_among(rules, ids) + (if is_live(
            rules,
            rule_id,
        ) {
            1nat
        } else {
            0nat
        }),
{
    assert(ids.push(rule_id).drop_last() =~= ids);
}

/// Where one rule stops being live and the others stay as they are, an
/// increasing list that names the rule holds one live rule less, and any
/// other list as many as before.
pub proof fn lemma_live_less_one(
    a: Map<u64, AutomationRule>,
    b: Map<u64, AutomationRule>,
    ids: Seq<u64>,
    rule_id: u64,
)
    requires
        forall|i: int, j: int| 0 <= i < j < ids.len() ==> #[trigger] ids[i] < #[trigger] ids[j],
        is_live(a, rule_id),
        !is_live(b, rule_id),
        forall|i: int|
            0 <= i < ids.len() && ids[i] != rule_id ==> is_live(a, #[trigger] ids[i]) == is_live(
                b,
                ids[i],
            ),
    ensures
        live_among(a, ids) == live_among(b, ids) + (if ids.contains(rule_id) {
            1nat
        } else {
            0nat
        }),
    decreases ids.len(),
{
    if ids.len() > 0 {
        let front = ids.drop_last();
        let last = ids.len() - 1;
        assert forall|i: int| 0 <= i < front.len() implies front[i] == ids[i] by {}
        assert forall|i: int, j: int| 0 <= i < j < front.len() implies #[trigger] front[i]
            < #[trigger] front[j] by {
            assert(ids[i] < ids[j]);
        }
        assert forall|i: int| 0 <= i < front.len() && front[i] != rule_id implies is_live(
            a,
            #[trigger] front[i],
        ) == is_live(b, front[i]) by {
            assert(front[i] == ids[i]);
        }
        lemma_live_less_one(a, b, front, rule_id);
        if ids[last] == rule_id {
            assert(ids.contains(rule_id));
            if front.contains(rule_id) {
                let k = choose|k: int| 0 <= k < front.len() && front[k] == rule_id;
                assert(ids[k] < ids[last]);
            }
        } else {
            if ids.contains(rule_id) {
                let k = choose|k: int| 0 <= k < ids.len() && ids[k] == rule_id;
                assert(front[k] == rule_id);
            }
            if front.contains(rule_id) {
                let k = choose|k: int| 0 <= k < front.len() && front[k] == rule_id;
                assert(ids[k] == rule_id);
            }
        }
    }
}

/// What the engine stands for.
pub struct EngineView {
    /// The id that the next rule gets.
    pub next_rule_id: u64,
    /// Every rule ever created, by its id.
    pub rules: Map<u64, AutomationRule>,
    /// For each account the ids of the rules it ever created, oldest first.
    pub user_rules: Map<Address, Seq<u64>>,
    /// For each account the number of rules that count against its tier.
    pub user_rule_count: Map<Address, u32>,
    /// Where the vault lives, once known.
    pub vault_address: Option<Address>,
}

/// What the execution of a rule hands out.
#[derive(Clone, Copy, Debug, PartialEq, Eq)]
pub struct RuleExecution {
    /// The vault's record of the payment, where the rule paid out.
    pub payment: Option<AutomationExecuted>,
    /// The engine's record of the execution.
    pub executed: RuleExecuted,
}

impl EngineView {
    /// The ids in use are exactly those from 1 up to the next id, and each
    /// rule is stored under its own id.
    pub open spec fn ids_in_order(self) -> bool {
        &&& self.next_rule_id >= 1
        &&& forall|id: u64| self.rules.contains_key(id) <==> 1 <= id < self.next_rule_id
        &&& forall|id: u64| self.rules.contains_key(id) ==> (#[trigger] self.rules[id]).id == id
    }

    /// Whether rule `rule_id` exists and belongs to `owner`.
    pub open spec fn owns(self, owner: Address, rule_id: u64) -> bool {
        self.rules.contains_key(rule_id) && self.rules[rule_id].owner == owner
    }

    /// Each account's list holds the ids of the rules that it owns, all of
    /// them and no others, in increasing order.
    pub open spec fn histories_sound(self) -> bool {
        &&& forall|id: u64| #[trigger]
            self.rules.contains_key(id) ==> self.rule_ids_of(self.rules[id].owner).contains(id)
        &&& forall|owner: Address, i: int|
            0 <= i < self.rule_ids_of(owner).len() ==> self.owns(
                owner,
                #[trigger] self.rule_ids_of(owner)[i],
            )
        &&& forall|owner: Address, i: int, j: int|
            0 <= i < j < self.rule_ids_of(owner).len() ==> #[trigger] self.rule_ids_of(owner)[i]
                < #[trigger] self.rule_ids_of(owner)[j]
    }

    /// No account has more rules counted than its tier admits.
    pub open spec fn counts_within_tier(self) -> bool {
        forall|owner: Address| #[trigger]
            self.rule_count_of(owner) <= self.tier_of(owner).max_rules_spec()
    }

    /// How many of the rules of `owner` are active or paused.
    pub open spec fn live_rules_of(self, owner: Address) -> nat {
        live_among(self.rules, self.rule_ids_of(owner))
    }

    /// The count of each account is the number of its rules that are active
    /// or paused.
    pub open spec fn counts_match_rules(self) -> bool {
        forall|owner: Address| #[trigger] self.rule_count_of(owner) == self.live_rules_of(owner)
    }

    /// What holds of every engine: the ids are in order, the lists of the
    /// accounts agree with the rules, the counts are the numbers of the live
    /// rules, and they are within the tiers.
    pub open spec fn valid(self) -> bool {
        &&& self.ids_in_order()
        &&& self.histories_sound()
        &&& self.counts_within_tier()
        &&& self.counts_match_rules()
    }

    /// The ids of the rules that `owner` ever created, oldest first.
    pub open spec fn rule_ids_of(self, owner: Address) -> Seq<u64> {
        if self.user_rules.contains_key(owner) {
            self.user_rules[owner]
        } else {
            Seq::empty()
        }
    }

    /// The number of rules that count against `owner`'s tier.
    pub open spec fn rule_count_of(self, owner: Address) -> u32 {
        if self.user_rule_count.contains_key(owner) {
            self.user_rule_count[owner]
        } else {
            0
        }
    }

    /// The tier of `owner`. Holdings are not consulted yet: every account is
    /// a `Starter`.
    pub open spec fn tier_of(self, owner: Address) -> StakingTier {
        StakingTier::Starter
    }

    /// The engine with `rule` stored under `rule_id`.
    pub open spec fn with_rule(self, rule_id: u64, rule: AutomationRule) -> EngineView {
        EngineView { rules: self.rules.insert(rule_id, rule), ..self }
    }

    /// The rule that `caller` creates at time `now`.
    pub open spec fn new_rule(
        self,
        caller: Address,
        now: u64,
        template_name: String,
        trigger_type: TriggerType,
        schedule: Schedule,
        action_type: ActionType,
        recipient: Option<Address>,
        amount: Amount,
    ) -> AutomationRule {
        AutomationRule {
            id: self.next_rule_id,
            owner: caller,
            trigger_type,
            schedule,
            action_type,
            status: RuleStatus::Active,
            template_name,
            recipient,
            amount,
            last_executed: 0,
            next_execution: (now + schedule.period()) as u64,
            execution_count: 0,
        }
    }

    /// What `caller`'s request at time `now` to create a rule leads to:
    /// `MaxRulesReached` where the account's tier admits no further rule;
    /// else the engine with the new rule under the next id, that id at the
    /// end of the account's list, and one more rule counted.
    pub open spec fn create_rule(
        self,
        caller: Address,
        now: u64,
        template_name: String,
        trigger_type: TriggerType,
        schedule: Schedule,
        action_type: ActionType,
        recipient: Option<Address>,
        amount: Amount,
    ) -> Result<EngineView, Error> {
        if !self.tier_of(caller).admits(self.rule_count_of(caller)) {
            Err(Error::MaxRulesReached)
        } else {
            Ok(
                EngineView {
                    next_rule_id: (self.next_rule_id + 1) as u64,
                    rules: self.rules.insert(
                        self.next_rule_id,
                        self.new_rule(
                            caller,
                            now,
                            template_name,
                            trigger_type,
                            schedule,
                            action_type,
                            recipient,
                            amount,
                        ),
                    ),
                    user_rules: self.user_rules.insert(
                        caller,
                        self.rule_ids_of(caller).push(self.next_rule_id),
                    ),
                    user_rule_count: self.user_rule_count.insert(
                        caller,
                        (self.rule_count_of(caller) + 1) as u32,
                    ),
                    ..self
                },
            )
        }
    }

    /// What `caller`'s request to pause rule `rule_id` leads to.
    pub open spec fn pause_rule(self, caller: Address, rule_id: u64) -> Result<EngineView, Error> {
        if !self.rules.contains_key(rule_id) {
            Err(Error::RuleNotFound)
        } else {
            match self.rules[rule_id].paused_by(caller) {
                Ok(paused) => Ok(self.with_rule(rule_id, paused)),
                Err(reason) => Err(reason),
            }
        }
    }

    /// What `caller`'s request to resume rule `rule_id` at time `now` leads
    /// to.
    pub open spec fn resume_rule(self, caller: Address, now: u64, rule_id: u64) -> Result<
        EngineView,
        Error,
    > {
        if !self.rules.contains_key(rule_id) {
            Err(Error::RuleNotFound)
        } else {
            match self.rules[rule_id].resumed_by(caller, now) {
                Ok(resumed) => Ok(self.with_rule(rule_id, resumed)),
                Err(reason) => Err(reason),
            }
        }
    }

    /// The rule counts after `caller` deleted a rule that had the status
    /// `status_before`: one less for `caller` where the rule was active or
    /// paused, and the same where it was deleted already.
    pub open spec fn counts_after_delete(self, caller: Address, status_before: RuleStatus) -> Map<
        Address,
        u32,
    > {
        let count = self.rule_count_of(caller);
        if count_after_delete_spec(count, status_before) != count {
            self.user_rule_count.insert(caller, count_after_delete_spec(count, status_before))
        } else {
            self.user_rule_count
        }
    }

    /// What `caller`'s request to delete rule `rule_id` leads to. A rule that
    /// is active or paused becomes deleted and is counted no longer. A rule
    /// that is deleted already stays deleted, and nothing else changes
    /// either: the request succeeds a second time, without effect.
    pub open spec fn delete_rule(self, caller: Address, rule_id: u64) -> Result<EngineView, Error> {
        if !self.rules.contains_key(rule_id) {
            Err(Error::RuleNotFound)
        } else {
            match self.rules[rule_id].deleted_by(caller) {
                Ok(deleted) => Ok(
                    EngineView {
                        rules: self.rules.insert(rule_id, deleted),
                        user_rule_count: self.counts_after_delete(
                            caller,
                            self.rules[rule_id].status,
                        ),
                        ..self
                    },
                ),
                Err(reason) => Err(reason),
            }
        }
    }

    /// What the payment of `rule` does to the vault: `InvalidRuleConfig`
    /// where the engine knows no vault or the rule names no recipient, else
    /// what the vault makes of the engine's request.
    pub open spec fn pay(self, vault: VaultView, engine: Address, rule: AutomationRule) -> Result<
        VaultView,
        Error,
    > {
        if self.vault_address is None || rule.recipient is None {
            Err(Error::InvalidRuleConfig)
        } else {
            vault.execute_transfer(engine, rule.owner, rule.amount.value())
        }
    }

    /// What the action of `rule` does to the vault: a payment for `Transfer`
    /// and `Split`, nothing for `Compound`.
    pub open spec fn dispatch(
        self,
        vault: VaultView,
        engine: Address,
        rule: AutomationRule,
    ) -> Result<VaultView, Error> {
        if rule.pays_out() {
            self.pay(vault, engine, rule)
        } else {
            Ok(vault)
        }
    }

    /// What `caller`'s request to execute rule `rule_id` at time `now` leads
    /// to, for the engine at address `engine` and the vault: the reason for
    /// which the rule is not found, may not run or cannot pay; else the
    /// engine with the execution recorded, and the vault after the payment.
    pub open spec fn execute_rule(
        self,
        vault: VaultView,
        engine: Address,
        caller: Address,
        now: u64,
        rule_id: u64,
    ) -> Result<(EngineView, VaultView), Error> {
        if !self.rules.contains_key(rule_id) {
            Err(Error::RuleNotFound)
        } else {
            let rule = self.rules[rule_id];
            match rule.execution_gate(caller, now) {
                Err(reason) => Err(reason),
                Ok(()) => match self.dispatch(vault, engine, rule) {
                    Err(reason) => Err(reason),
                    Ok(paid) => Ok((self.with_rule(rule_id, rule.executed_at(now)), paid)),
                },
            }
        }
    }

    /// An engine that differs from a valid one in no list, no count, and in
    /// no rule's id, owner or being deleted, is valid too.
    pub proof fn lemma_same_shape_keeps_valid(self, other: EngineView)
        requires
            self.valid(),
            other.next_rule_id == self.next_rule_id,
            other.user_rules == self.user_rules,
            other.user_rule_count == self.user_rule_count,
            forall|id: u64| other.rules.contains_key(id) <==> self.rules.contains_key(id),
            forall|id: u64| #[trigger]
                self.rules.contains_key(id) ==> {
                    &&& other.rules[id].id == self.rules[id].id
                    &&& other.rules[id].owner == self.rules[id].owner
                    &&& is_live(other.rules, id) == is_live(self.rules, id)
                },
        ensures
            other.valid(),
    {
        self.lemma_lists_stay(other);
        assert forall|owner: Address| #[trigger]
            other.rule_count_of(owner) <= other.tier_of(owner).max_rules_spec() by {
            assert(self.rule_count_of(owner) <= self.tier_of(owner).max_rules_spec());
        }
        assert forall|owner: Address| #[trigger] other.rule_count_of(owner) == other.live_rules_of(
            owner,
        ) by {
            let ids = self.rule_ids_of(owner);
            assert forall|i: int| 0 <= i < ids.len() implies is_live(self.rules, #[trigger] ids[i])
                == is_live(other.rules, ids[i]) by {
                assert(self.owns(owner, ids[i]));
            }
            lemma_live_same(self.rules, other.rules, ids);
            assert(self.rule_count_of(owner) == self.live_rules_of(owner));
        }
    }

    /// An engine that differs from a valid one in no list and in no rule's
    /// id or owner keeps the ids in order and the lists sound.
    proof fn lemma_lists_stay(self, other: EngineView)
        requires
            self.valid(),
            other.next_rule_id == self.next_rule_id,
            other.user_rules == self.user_rules,
            forall|id: u64| other.rules.contains_key(id) <==> self.rules.contains_key(id),
            forall|id: u64| #[trigger]
                self.rules.contains_key(id) ==> {
                    &&& other.rules[id].id == self.rules[id].id
                    &&& other.rules[id].owner == self.rules[id].owner
                },
        ensures
            other.ids_in_order(),
            other.histories_sound(),
            forall|owner: Address| other.rule_ids_of(owner) == self.rule_ids_of(owner),
    {
        assert forall|id: u64| other.rules.contains_key(id) implies (#[trigger] other.rules[id]).id
            == id by {
            assert(self.rules.contains_key(id));
        }
        assert forall|id: u64| #[trigger] other.rules.contains_key(id) implies other.rule_ids_of(
            other.rules[id].owner,
        ).contains(id) by {
            assert(self.rules.contains_key(id));
        }
        assert forall|owner: Address, i: int|
            0 <= i < other.rule_ids_of(owner).len() implies other.owns(
            owner,
            #[trigger] other.rule_ids_of(owner)[i],
        ) by {
            assert(self.owns(owner, self.rule_ids_of(owner)[i]));
        }
        assert forall|owner: Address, i: int, j: int|
            0 <= i < j < other.rule_ids_of(owner).len() implies #[trigger] other.rule_ids_of(
            owner,
        )[i] < #[trigger] other.rule_ids_of(owner)[j] by {
            assert(self.rule_ids_of(owner)[i] < self.rule_ids_of(owner)[j]);
        }
    }

    /// Replacing a rule by one with the same id and owner, deleted if and
    /// only if the rule was, keeps the engine valid.
    pub proof fn lemma_with_rule_keeps_valid(self, rule_id: u64, rule: AutomationRule)
        requires
            self.valid(),
            self.rules.contains_key(rule_id),
            rule.id == rule_id,
            rule.owner == self.rules[rule_id].owner,
            (rule.status == RuleStatus::Deleted) == (self.rules[rule_id].status
                == RuleStatus::Deleted),
        ensures
            self.with_rule(rule_id, rule).valid(),
    {
        self.lemma_same_shape_keeps_valid(self.with_rule(rule_id, rule));
    }

    /// Validity does not depend on where the vault lives.
    pub proof fn lemma_vault_address_keeps_valid(self, vault_address: Option<Address>)
        requires
            self.valid(),
        ensures
            (EngineView { vault_address, ..self }).valid(),
    {
        self.lemma_same_shape_keeps_valid(EngineView { vault_address, ..self });
    }

    /// Creating a rule keeps the engine valid, while ids are left.
    pub proof fn lemma_create_rule_keeps_valid(
        self,
        caller: Address,
        now: u64,
        template_name: String,
        trigger_type: TriggerType,
        schedule: Schedule,
        action_type: ActionType,
        recipient: Option<Address>,
        amount: Amount,
    )
        requires
            self.valid(),
            self.next_rule_id < u64::MAX,
        ensures
            self.create_rule(
                caller,
                now,
                template_name,
                trigger_type,
                schedule,
                action_type,
                recipient,
                amount,
            ) matches Ok(next) ==> next.valid(),
    {
        let created = self.create_rule(
            caller,
            now,
            template_name,
            trigger_type,
            schedule,
            action_type,
            recipient,
            amount,
        );
        if created is Ok {
            let next = created.unwrap();
            let new_id = self.next_rule_id;
            let old_ids = self.rule_ids_of(caller);
            assert(next.rule_ids_of(caller) == old_ids.push(new_id));
            assert forall|owner: Address| owner != caller implies next.rule_ids_of(owner)
                == self.rule_ids_of(owner) by {}
            assert forall|owner: Address, i: int| 0 <= i < self.rule_ids_of(owner).len() implies (
            #[trigger] self.rule_ids_of(owner)[i]) < new_id by {
                assert(self.owns(owner, self.rule_ids_of(owner)[i]));
            }
            assert forall|id: u64| #[trigger] next.rules.contains_key(id) implies next.rule_ids_of(
                next.rules[id].owner,
            ).contains(id) by {
                if id == new_id {
                    assert(next.rule_ids_of(caller)[old_ids.len() as int] == new_id);
                } else {
                    assert(self.rules.contains_key(id));
                    let owner = self.rules[id].owner;
                    let i = choose|i: int|
                        0 <= i < self.rule_ids_of(owner).len() && self.rule_ids_of(owner)[i] == id;
                    assert(next.rule_ids_of(owner)[i] == id);
                }
            }
            assert forall|owner: Address, i: int|
                0 <= i < next.rule_ids_of(owner).len() implies next.owns(
                owner,
                #[trigger] next.rule_ids_of(owner)[i],
            ) by {
                if owner == caller && i == old_ids.len() {
                } else {
                    assert(self.owns(owner, self.rule_ids_of(owner)[i]));
                }
            }
            assert forall|owner: Address, i: int, j: int|
                0 <= i < j < next.rule_ids_of(owner).len() implies #[trigger] next.rule_ids_of(
                owner,
            )[i] < #[trigger] next.rule_ids_of(owner)[j] by {
                if owner == caller && j == old_ids.len() {
                    assert(self.rule_ids_of(owner)[i] < new_id);
                } else {
                    assert(self.rule_ids_of(owner)[i] < self.rule_ids_of(owner)[j]);
                }
            }
            assert forall|owner: Address| #[trigger]
                next.rule_count_of(owner) <= next.tier_of(owner).max_rules_spec() by {
                assert(self.rule_count_of(owner) <= self.tier_of(owner).max_rules_spec());
            }
            assert forall|owner: Address| #[trigger] next.rule_count_of(owner)
                == next.live_rules_of(owner) by {
                let ids = self.rule_ids_of(owner);
                assert forall|i: int| 0 <= i < ids.len() implies is_live(
                    self.rules,
                    #[trigger] ids[i],
                ) == is_live(next.rules, ids[i]) by {
                    assert(ids[i] < new_id);
                    assert(self.owns(owner, ids[i]));
                }
                lemma_live_same(self.rules, next.rules, ids);
                assert(self.rule_count_of(owner) == self.live_rules_of(owner));
                if owner == caller {
                    lemma_live_push(next.rules, ids, new_id);
                    assert(self.rule_count_of(caller) <= self.tier_of(caller).max_rules_spec());
                }
            }
        }
    }

    /// Pausing a rule keeps the engine valid.
    pub proof fn lemma_pause_rule_keeps_valid(self, caller: Address, rule_id: u64)
        requires
            self.valid(),
        ensures
            self.pause_rule(caller, rule_id) matches Ok(next) ==> next.valid(),
    {
        if self.pause_rule(caller, rule_id) is Ok {
            self.lemma_with_rule_keeps_valid(
                rule_id,
                self.rules[rule_id].paused_by(caller).unwrap(),
            );
        }
    }

    /// Resuming a rule keeps the engine valid.
    pub proof fn lemma_resume_rule_keeps_valid(self, caller: Address, now: u64, rule_id: u64)
        requires
            self.valid(),
        ensures
            self.resume_rule(caller, now, rule_id) matches Ok(next) ==> next.valid(),
    {
        if self.resume_rule(caller, now, rule_id) is Ok {
            self.lemma_with_rule_keeps_valid(
                rule_id,
                self.rules[rule_id].resumed_by(caller, now).unwrap(),
            );
        }
    }

    /// Deleting a rule keeps the engine valid: where the rule was live, its
    /// owner has one live rule less and one rule less counted.
    pub proof fn lemma_delete_rule_keeps_valid(self, caller: Address, rule_id: u64)
        requires
            self.valid(),
        ensures
            self.delete_rule(caller, rule_id) matches Ok(next) ==> {
                &&& next.valid()
                &&& is_live(self.rules, rule_id) ==> self.rule_count_of(caller) > 0
                    && next.rule_count_of(caller) == self.rule_count_of(caller) - 1
                &&& !is_live(self.rules, rule_id) ==> next == self
            },
    {
        if self.delete_rule(caller, rule_id) is Ok {
            let next = self.delete_rule(caller, rule_id).unwrap();
            if is_live(self.rules, rule_id) {
                self.lemma_lists_stay(next);
                assert(self.rule_ids_of(caller).contains(rule_id));
                assert forall|owner: Address| #[trigger] self.live_rules_of(owner)
                    == live_among(next.rules, self.rule_ids_of(owner)) + (if owner == caller {
                    1nat
                } else {
                    0nat
                }) by {
                    let ids = self.rule_ids_of(owner);
                    assert forall|i: int, j: int| 0 <= i < j < ids.len() implies #[trigger] ids[i]
                        < #[trigger] ids[j] by {}
                    lemma_live_less_one(self.rules, next.rules, ids, rule_id);
                    if ids.contains(rule_id) {
                        let k = choose|k: int| 0 <= k < ids.len() && ids[k] == rule_id;
                        assert(self.owns(owner, ids[k]));
                    }
                }
                assert(self.rule_count_of(caller) == self.live_rules_of(caller));
                assert(self.rule_count_of(caller) > 0);
                assert forall|owner: Address| #[trigger] next.rule_count_of(owner)
                    == next.live_rules_of(owner) by {
                    assert(self.rule_count_of(owner) == self.live_rules_of(owner));
                }
                assert forall|owner: Address| #[trigger]
                    next.rule_count_of(owner) <= next.tier_of(owner).max_rules_spec() by {
                    assert(self.rule_count_of(owner) <= self.tier_of(owner).max_rules_spec());
                }
            } else {
                assert(next.rules =~= self.rules);
            }
        }
    }

    /// Executing a rule keeps the engine valid.
    pub proof fn lemma_execute_rule_keeps_valid(
        self,
        vault: VaultView,
        engine: Address,
        caller: Address,
        now: u64,
        rule_id: u64,
    )
        requires
            self.valid(),
        ensures
            self.execute_rule(vault, engine, caller, now, rule_id) matches Ok(next)
                ==> next.0.valid(),
    {
        if self.execute_rule(vault, engine, caller, now, rule_id) is Ok {
            self.lemma_with_rule_keeps_valid(rule_id, self.rules[rule_id].executed_at(now));
        }
    }

    /// Whether rule `rule_id`, if there is one, can be scheduled from `now`.
    pub open spec fn can_schedule_rule(self, now: u64, rule_id: u64) -> bool {
        self.rules.contains_key(rule_id) ==> can_schedule(now, self.rules[rule_id].schedule)
    }

    /// Whether an execution of rule `rule_id`, if there is one, can be
    /// recorded at `now`.
    pub open spec fn can_record_rule(self, now: u64, rule_id: u64) -> bool {
        self.rules.contains_key(rule_id) ==> self.rules[rule_id].can_record(now)
    }
}

/// The engine.
pub struct AutomationEngine {
    /// The id that the next rule gets.
    next_rule_id: u64,
    /// The rule with id `i + 1` at place `i`.
    rules: Vec<AutomationRule>,
    /// The ids of each account's rules, oldest first.
    user_rules: AccountMap<Vec<u64>>,
    /// The number of rules that count against each account's tier.
    user_rule_count: AccountMap<u32>,
    /// Where the vault lives, once known.
    vault_address: Option<Address>,
}

impl View for AutomationEngine {
    type V = EngineView;

    closed spec fn view(&self) -> EngineView {
        EngineView {
            next_rule_id: self.next_rule_id,
            rules: Map::new(
                |id: u64| 1 <= id <= self.rules@.len(),
                |id: u64| self.rules@[id - 1],
            ),
            user_rules: lists_of(self.user_rules@),
            user_rule_count: self.user_rule_count@,
            vault_address: self.vault_address,
        }
    }
}

impl AutomationEngine {
    /// The stores are sound and the rules lie in the order of their ids.
    closed spec fn stores_sound(&self) -> bool {
        &&& self.user_rules.wf()
        &&& self.user_rule_count.wf()
        &&& self.next_rule_id == self.rules@.len() + 1
        &&& forall|i: int| 0 <= i < self.rules@.len() ==> (#[trigger] self.rules@[i]).id == i + 1
    }

    /// The stores are sound and the engine they stand for is valid.
    pub closed spec fn wf(&self) -> bool {
        &&& self.stores_sound()
        &&& self@.valid()
    }

    /// A well-formed engine stands for a valid view.
    pub proof fn lemma_valid(&self)
        requires
            self.wf(),
        ensures
            self@.valid(),
    {
    }

    /// An engine without rules that knows the vault at `vault_address`, if
    /// one is given. The first rule gets id 1.
    pub fn init(vault_address: Option<Address>) -> (engine: AutomationEngine)
        ensures
            engine.wf(),
            engine@ == (EngineView {
                next_rule_id: 1,
                rules: Map::<u64, AutomationRule>::empty(),
                user_rules: Map::<Address, Seq<u64>>::empty(),
                user_rule_count: Map::<Address, u32>::empty(),
                vault_address,
            }),
    {
        let engine = AutomationEngine {
            next_rule_id: 1,
            rules: Vec::new(),
            user_rules: AccountMap::new(),
            user_rule_count: AccountMap::new(),
            vault_address,
        };
        assert(engine@.rules =~= Map::<u64, AutomationRule>::empty());
        assert(engine@.user_rules =~= Map::<Address, Seq<u64>>::empty());
        engine
    }

    /// Tells the engine where the vault lives.
    pub fn set_vault_address(&mut self, vault: Address)
        requires
            old(self).wf(),
        ensures
            final(self).wf(),
            final(self)@ == (EngineView { vault_address: Some(vault), ..old(self)@ }),
    {
        proof {
            self@.lemma_vault_address_keeps_valid(Some(vault));
        }
        self.vault_address = Some(vault);
    }

    /// The rule with id `rule_id`, if there is one. Deleted rules are kept.
    pub fn get_rule(&self, rule_id: u64) -> (rule: Option<AutomationRule>)
        requires
            self.wf(),
        ensures
            rule == if self@.rules.contains_key(rule_id) {
                Some(self@.rules[rule_id])
            } else {
                None
            },
    {
        match self.get_rule_or_revert(rule_id) {
            Ok(rule) => Some(rule),
            Err(_) => None,
        }
    }

    /// The ids of the rules that `owner` ever created, oldest first, deleted
    /// ones included.
    pub fn get_user_rule_ids(&self, owner: Address) -> (ids: Vec<u64>)
        requires
            self.wf(),
        ensures
            ids@ == self@.rule_ids_of(owner),
    {
        match self.user_rules.get(&owner) {
            Some(ids) => ids.clone(),
            None => Vec::new(),
        }
    }

    /// The tier of `owner`: `Starter` for everyone, until holdings are
    /// consulted.
    pub fn get_user_tier(&self, owner: Address) -> (tier: StakingTier)
        ensures
            tier == self@.tier_of(owner),
    {
        StakingTier::Starter
    }

    /// The number of rules that count against `owner`'s tier.
    pub fn get_user_rule_count(&self, owner: Address) -> (count: u32)
        requires
            self.wf(),
        ensures
            count == self@.rule_count_of(owner),
    {
        match self.user_rule_count.get(&owner) {
            Some(count) => *count,
            None => 0,
        }
    }

    /// Where the vault lives, once known.
    pub fn get_vault_address(&self) -> (vault: Option<Address>)
        ensures
            vault == self@.vault_address,
    {
        self.vault_address
    }

    /// Where the rule with id `rule_id` lies, if there is one.
    fn place_of(&self, rule_id: u64) -> (place: Option<usize>)
        requires
            self.stores_sound(),
        ensures
            match place {
                Some(p) => self@.rules.contains_key(rule_id) && p == rule_id - 1,
                None => !self@.rules.contains_key(rule_id),
            },
    {
        let count: usize = self.rules.len();
        if rule_id >= 1 && rule_id - 1 < count as u64 {
            Some((rule_id - 1) as usize)
        } else {
            None
        }
    }

    /// The rule with id `rule_id`, or `RuleNotFound`.
    pub fn get_rule_or_revert(&self, rule_id: u64) -> (outcome: Result<AutomationRule, Error>)
        requires
            self.wf(),
        ensures
            outcome == if self@.rules.contains_key(rule_id) {
                Ok::<AutomationRule, Error>(self@.rules[rule_id])
            } else {
                Err::<AutomationRule, Error>(Error::RuleNotFound)
            },
    {
        match self.place_of(rule_id) {
            Some(place) => Ok(self.rules[place].duplicate()),
            None => Err(Error::RuleNotFound),
        }
    }

    /// Stores `rule` under its id, in place of the rule that was there.
    fn put_rule(&mut self, rule: AutomationRule)
        requires
            old(self).stores_sound(),
            old(self)@.rules.contains_key(rule.id),
        ensures
            final(self).stores_sound(),
            final(self)@ == old(self)@.with_rule(rule.id, rule),
    {
        let ghost id = rule.id;
        match self.place_of(rule.id) {
            Some(place) => {
                self.rules[place] = rule;
            },
            None => {},
        }
        assert(self@.rules =~= old(self)@.rules.insert(id, rule));
    }

    /// Whether a rule with `schedule` can be created at `current_time`: the
    /// due time fits a timestamp and an id is left.
    pub fn can_create_rule(&self, current_time: u64, schedule: &Schedule) -> (ok: bool)
        requires
            self.wf(),
        ensures
            ok == (can_schedule(current_time, *schedule) && self@.next_rule_id < u64::MAX),
    {
        can_schedule_at(current_time, schedule) && self.next_rule_id < u64::MAX
    }

    /// Creates an active rule for `caller`, due one period after
    /// `current_time`, if the caller's tier admits one more rule.
    pub fn create_rule(
        &mut self,
        caller: Address,
        current_time: u64,
        template_name: String,
        trigger_type: TriggerType,
        schedule: Schedule,
        action_type: ActionType,
        recipient: Option<Address>,
        amount: Amount,
    ) -> (outcome: Result<RuleCreated, Error>)
        requires
            old(self).wf(),
            old(self)@.create_rule(
                caller,
                current_time,
                template_name,
                trigger_type,
                schedule,
                action_type,
                recipient,
                amount,
            ) is Ok ==> can_schedule(current_time, schedule) && old(self)@.next_rule_id
                < u64::MAX,
        ensures
            final(self).wf(),
            match old(self)@.create_rule(
                caller,
                current_time,
                template_name,
                trigger_type,
                schedule,
                action_type,
                recipient,
                amount,
            ) {
                Ok(next) => final(self)@ == next && outcome == Ok::<RuleCreated, Error>(
                    RuleCreated {
                        rule_id: old(self)@.next_rule_id,
                        owner: caller,
                        template_type: template_name,
                    },
                ),
                Err(reason) => final(self)@ == old(self)@ && outcome == Err::<RuleCreated, Error>(
                    reason,
                ),
            },
    {
        let current_count = self.get_user_rule_count(caller);
        let new_count = admit_rule(current_count, self.get_user_tier(caller))?;
        let (rule_id, next_rule_id, user_rule_ids) = assign_rule_id(
            self.next_rule_id,
            self.get_user_rule_ids(caller),
        );
        let next_execution = calculate_next_execution(current_time, &schedule);
        let rule = AutomationRule::new(
            rule_id,
            caller,
            template_name.clone(),
            trigger_type,
            schedule,
            action_type,
            recipient,
            amount,
            next_execution,
        );
        self.next_rule_id = next_rule_id;
        self.rules.push(rule);
        self.user_rules.set(caller, user_rule_ids);
        self.user_rule_count.set(caller, new_count);
        proof {
            let next = old(self)@.create_rule(
                caller,
                current_time,
                template_name,
                trigger_type,
                schedule,
                action_type,
                recipient,
                amount,
            ).unwrap();
            old(self)@.lemma_create_rule_keeps_valid(
                caller,
                current_time,
                template_name,
                trigger_type,
                schedule,
                action_type,
                recipient,
                amount,
            );
            assert(self@.rules =~= next.rules);
            assert(self@.user_rules =~= next.user_rules);
            assert(self@ == next);
        }
        Ok(RuleCreated { rule_id, owner: caller, template_type: template_name })
    }

    /// Pauses rule `rule_id` for its owner. The rule keeps its due time.
    pub fn pause_rule(&mut self, caller: Address, rule_id: u64) -> (outcome: Result<
        RulePaused,
        Error,
    >)
        requires
            old(self).wf(),
        ensures
            final(self).wf(),
            match old(self)@.pause_rule(caller, rule_id) {
                Ok(next) => final(self)@ == next && outcome == Ok::<RulePaused, Error>(
                    RulePaused { rule_id, owner: caller },
                ),
                Err(reason) => final(self)@ == old(self)@ && outcome == Err::<RulePaused, Error>(
                    reason,
                ),
            },
    {
        proof {
            self.lemma_valid();
        }
        let mut rule = self.get_rule_or_revert(rule_id)?;
        let event = rule.pause(caller)?;
        self.put_rule(rule);
        proof {
            old(self)@.lemma_pause_rule_keeps_valid(caller, rule_id);
        }
        Ok(event)
    }

    /// Resumes rule `rule_id` for its owner and schedules it one period
    /// after `current_time`.
    pub fn resume_rule(&mut self, caller: Address, current_time: u64, rule_id: u64) -> (outcome:
        Result<RuleResumed, Error>)
        requires
            old(self).wf(),
            old(self)@.resume_rule(caller, current_time, rule_id) is Ok ==> old(
                self,
            )@.can_schedule_rule(current_time, rule_id),
        ensures
            final(self).wf(),
            match old(self)@.resume_rule(caller, current_time, rule_id) {
                Ok(next) => final(self)@ == next && outcome == Ok::<RuleResumed, Error>(
                    RuleResumed { rule_id, owner: caller },
                ),
                Err(reason) => final(self)@ == old(self)@ && outcome == Err::<RuleResumed, Error>(
                    reason,
                ),
            },
    {
        proof {
            self.lemma_valid();
        }
        let mut rule = self.get_rule_or_revert(rule_id)?;
        let event = rule.resume(caller, current_time)?;
        self.put_rule(rule);
        proof {
            old(self)@.lemma_resume_rule_keeps_valid(caller, current_time, rule_id);
        }
        Ok(event)
    }

    /// Deletes rule `rule_id` for its owner and counts one rule less against
    /// the owner's tier. The rule stays in the store and in the owner's
    /// list. On a rule that is deleted already the request succeeds again
    /// and changes nothing.
    pub fn delete_rule(&mut self, caller: Address, rule_id: u64) -> (outcome: Result<
        RuleDeleted,
        Error,
    >)
        requires
            old(self).wf(),
        ensures
            final(self).wf(),
            match old(self)@.delete_rule(caller, rule_id) {
                Ok(next) => final(self)@ == next && outcome == Ok::<RuleDeleted, Error>(
                    RuleDeleted { rule_id, owner: caller },
                ),
                Err(reason) => final(self)@ == old(self)@ && outcome == Err::<RuleDeleted, Error>(
                    reason,
                ),
            },
    {
        proof {
            self.lemma_valid();
        }
        let mut rule = self.get_rule_or_revert(rule_id)?;
        let status_before = rule.status;
        let event = rule.delete(caller)?;
        let current_count = self.get_user_rule_count(caller);
        let new_count = count_after_delete(current_count, status_before);
        self.put_rule(rule);
        if new_count != current_count {
            self.user_rule_count.set(caller, new_count);
        }
        proof {
            old(self)@.lemma_delete_rule_keeps_valid(caller, rule_id);
            assert(self@ == old(self)@.delete_rule(caller, rule_id).unwrap());
        }
        Ok(event)
    }

    /// Asks the vault to pay what `rule` pays. `engine_address` is the
    /// address under which the vault knows the engine.
    pub fn execute_transfer(
        &self,
        vault: &mut AutomationVault,
        engine_address: Address,
        rule: &AutomationRule,
    ) -> (outcome: Result<AutomationExecuted, Error>)
        requires
            old(vault).wf(),
        ensures
            final(vault).wf(),
            match self@.pay(old(vault)@, engine_address, *rule) {
                Ok(paid) => final(vault)@ == paid && outcome == Ok::<AutomationExecuted, Error>(
                    AutomationExecuted {
                        owner: rule.owner,
                        rule_id: rule.id,
                        recipient: rule.recipient.unwrap(),
                        amount: rule.amount,
                    },
                ),
                Err(reason) => final(vault)@ == old(vault)@ && outcome == Err::<
                    AutomationExecuted,
                    Error,
                >(reason),
            },
    {
        match self.vault_address {
            Some(_) => {},
            None => {
                return Err(Error::InvalidRuleConfig);
            },
        }
        let recipient = match rule.recipient {
            Some(recipient) => recipient,
            None => {
                return Err(Error::InvalidRuleConfig);
            },
        };
        vault.execute_transfer(engine_address, rule.owner, recipient, rule.amount, rule.id)
    }

    /// Executes rule `rule_id` at `current_time` on behalf of `caller`: pays
    /// out of `vault` where the rule's action is a payment, then records the
    /// execution and schedules the rule one period after `current_time`.
    /// Where the rule may not run or the vault refuses, nothing changes.
    pub fn execute_rule(
        &mut self,
        vault: &mut AutomationVault,
        engine_address: Address,
        caller: Address,
        current_time: u64,
        rule_id: u64,
    ) -> (outcome: Result<RuleExecution, Error>)
        requires
            old(self).wf(),
            old(vault).wf(),
            old(self)@.execute_rule(old(vault)@, engine_address, caller, current_time, rule_id)
                is Ok ==> old(self)@.can_record_rule(current_time, rule_id),
        ensures
            final(self).wf(),
            final(vault).wf(),
            match old(self)@.execute_rule(
                old(vault)@,
                engine_address,
                caller,
                current_time,
                rule_id,
            ) {
                Ok((engine_after, vault_after)) => {
                    let rule = old(self)@.rules[rule_id];
                    &&& final(self)@ == engine_after
                    &&& final(vault)@ == vault_after
                    &&& outcome == Ok::<RuleExecution, Error>(
                        RuleExecution {
                            payment: if rule.pays_out() {
                                Some(
                                    AutomationExecuted {
                                        owner: rule.owner,
                                        rule_id,
                                        recipient: rule.recipient.unwrap(),
                                        amount: rule.amount,
                                    },
                                )
                            } else {
                                None
                            },
                            executed: RuleExecuted {
                                rule_id,
                                owner: rule.owner,
                                executed_at: current_time,
                            },
                        },
                    )
                },
                Err(reason) => {
                    &&& final(self)@ == old(self)@
                    &&& final(vault)@ == old(vault)@
                    &&& outcome == Err::<RuleExecution, Error>(reason)
                },
            },
    {
        proof {
            self.lemma_valid();
        }
        let mut rule = self.get_rule_or_revert(rule_id)?;
        rule.check_execution(caller, current_time)?;
        let payment = match rule.action_type {
            ActionType::Transfer | ActionType::Split => Some(
                self.execute_transfer(vault, engine_address, &rule)?,
            ),
            ActionType::Compound => None,
        };
        let executed = rule.record_execution(current_time);
        self.put_rule(rule);
        proof {
            old(self)@.lemma_execute_rule_keeps_valid(
                old(vault)@,
                engine_address,
                caller,
                current_time,
                rule_id,
            );
        }
        Ok(RuleExecution { payment, executed })
    }
}

} // verus!
