use casperflow_contracts::amount::Amount;
use casperflow_contracts::automation_engine::{AutomationEngine, RuleExecution};
use casperflow_contracts::errors::Error;
use casperflow_contracts::events::{
    AutomationExecuted, RuleCreated, RuleDeleted, RuleExecuted, RulePaused, RuleResumed,
};
use casperflow_contracts::types::{
    ActionType, AutomationRule, RuleStatus, Schedule, StakingTier, TriggerType,
};
use casperflow_contracts::vault::AutomationVault;
use odra_core::casper_types::account::AccountHash;
use odra_core::casper_types::contracts::ContractPackageHash;
use odra_core::prelude::Address;

const T: u64 = 1_700_000_000;

fn account(n: u8) -> Address {
    Address::Account(AccountHash::new([n; 32]))
}

fn contract(n: u8) -> Address {
    Address::Contract(ContractPackageHash::new([n; 32]))
}

fn amt(v: u64) -> Amount {
    Amount::from_u64(v)
}

fn engine_address() -> Address {
    contract(200)
}

fn vault_address() -> Address {
    contract(100)
}

fn setup() -> (AutomationVault, AutomationEngine) {
    let mut vault = AutomationVault::init(None);
    let engine = AutomationEngine::init(Some(vault_address()));
    vault.set_automation_engine(engine_address());
    (vault, engine)
}

fn create(
    engine: &mut AutomationEngine,
    caller: Address,
    now: u64,
    name: &str,
    trigger: TriggerType,
    schedule: Schedule,
    action: ActionType,
    recipient: Option<Address>,
    amount: u64,
) -> Result<u64, Error> {
    engine
        .create_rule(caller, now, name.to_string(), trigger, schedule, action, recipient, amt(amount))
        .map(|created| created.rule_id)
}

#[test]
fn test_create_rule() {
    let (_vault, mut engine) = setup();
    let user = account(0);

    let created = engine.create_rule(
        user,
        T,
        "recurring_payment".to_string(),
        TriggerType::Time,
        Schedule::Daily,
        ActionType::Transfer,
        Some(account(1)),
        amt(100_000_000),
    );
    let rule_id = created.unwrap().rule_id;

    assert_eq!(rule_id, 1);

    let rule = engine.get_rule(rule_id);
    assert!(rule.is_some());
    assert_eq!(rule.unwrap().owner, user);
}

#[test]
fn test_pause_and_resume() {
    let (_vault, mut engine) = setup();
    let user = account(0);

    let rule_id = engine
        .create_rule(
            user,
            T,
            "test_rule".to_string(),
            TriggerType::Manual,
            Schedule::Daily,
            ActionType::Transfer,
            Some(account(1)),
            amt(100_000_000),
        )
        .unwrap()
        .rule_id;

    assert!(engine.pause_rule(user, rule_id).is_ok());
    let rule = engine.get_rule(rule_id).unwrap();
    assert!(matches!(rule.status, RuleStatus::Paused));

    assert!(engine.resume_rule(user, T, rule_id).is_ok());
    let rule = engine.get_rule(rule_id).unwrap();
    assert!(matches!(rule.status, RuleStatus::Active));
}

#[test]
fn test_tier_limit() {
    let (_vault, mut engine) = setup();
    let user = account(0);

    for i in 0..2 {
        let created = engine.create_rule(
            user,
            T,
            format!("rule_{}", i),
            TriggerType::Manual,
            Schedule::Daily,
            ActionType::Transfer,
            Some(account(1)),
            amt(100_000_000),
        );
        assert!(created.is_ok());
    }

    let result = engine.create_rule(
        user,
        T,
        "rule_3".to_string(),
        TriggerType::Manual,
        Schedule::Daily,
        ActionType::Transfer,
        Some(account(1)),
        amt(100_000_000),
    );

    assert!(result.is_err());
    assert_eq!(result, Err(Error::MaxRulesReached));
}

#[test]
fn fresh_engine_is_empty() {
    let engine = AutomationEngine::init(None);
    assert_eq!(engine.get_vault_address(), None);
    assert_eq!(engine.get_rule(0), None);
    assert_eq!(engine.get_rule(1), None);
    assert_eq!(engine.get_user_rule_ids(account(0)), Vec::<u64>::new());
    assert_eq!(engine.get_user_rule_count(account(0)), 0);
    assert_eq!(engine.get_user_tier(account(0)), StakingTier::Starter);
    assert_eq!(engine.get_rule_or_revert(1), Err(Error::RuleNotFound));
}

#[test]
fn set_vault_address_is_read_back() {
    let mut engine = AutomationEngine::init(None);
    engine.set_vault_address(vault_address());
    assert_eq!(engine.get_vault_address(), Some(vault_address()));
    engine.set_vault_address(contract(101));
    assert_eq!(engine.get_vault_address(), Some(contract(101)));
}

#[test]
fn create_rule_stores_the_whole_record() {
    let (_vault, mut engine) = setup();
    let x = account(1);
    let y = account(2);
    let created = engine.create_rule(
        x,
        T,
        "salary".to_string(),
        TriggerType::Time,
        Schedule::Weekly,
        ActionType::Split,
        Some(y),
        amt(30),
    );
    assert_eq!(
        created,
        Ok(RuleCreated { rule_id: 1, owner: x, template_type: "salary".to_string() })
    );
    assert_eq!(
        engine.get_rule(1),
        Some(AutomationRule {
            id: 1,
            owner: x,
            trigger_type: TriggerType::Time,
            schedule: Schedule::Weekly,
            action_type: ActionType::Split,
            status: RuleStatus::Active,
            template_name: "salary".to_string(),
            recipient: Some(y),
            amount: amt(30),
            last_executed: 0,
            next_execution: T + 604_800,
            execution_count: 0,
        })
    );
    assert_eq!(engine.get_user_rule_ids(x), vec![1]);
    assert_eq!(engine.get_user_rule_count(x), 1);
    assert_eq!(engine.get_user_rule_count(y), 0);
}

#[test]
fn next_execution_follows_the_schedule() {
    let (_vault, mut engine) = setup();
    let daily = create(&mut engine, account(1), 1000, "d", TriggerType::Time, Schedule::Daily, ActionType::Compound, None, 0).unwrap();
    let weekly = create(&mut engine, account(2), 1000, "w", TriggerType::Time, Schedule::Weekly, ActionType::Compound, None, 0).unwrap();
    let monthly = create(&mut engine, account(3), 1000, "m", TriggerType::Time, Schedule::Monthly, ActionType::Compound, None, 0).unwrap();
    assert_eq!(engine.get_rule(daily).unwrap().next_execution, 1000 + 86_400);
    assert_eq!(engine.get_rule(weekly).unwrap().next_execution, 1000 + 604_800);
    assert_eq!(engine.get_rule(monthly).unwrap().next_execution, 1000 + 2_592_000);
}

#[test]
fn rule_ids_increase_across_accounts_and_deletions() {
    let (_vault, mut engine) = setup();
    let x = account(1);
    let y = account(2);
    assert_eq!(create(&mut engine, x, T, "a", TriggerType::Manual, Schedule::Daily, ActionType::Compound, None, 0), Ok(1));
    assert_eq!(create(&mut engine, y, T, "b", TriggerType::Manual, Schedule::Daily, ActionType::Compound, None, 0), Ok(2));
    assert!(engine.delete_rule(x, 1).is_ok());
    assert_eq!(create(&mut engine, x, T, "c", TriggerType::Manual, Schedule::Daily, ActionType::Compound, None, 0), Ok(3));
    assert!(engine.delete_rule(y, 2).is_ok());
    assert_eq!(create(&mut engine, y, T, "d", TriggerType::Manual, Schedule::Daily, ActionType::Compound, None, 0), Ok(4));
    assert_eq!(engine.get_user_rule_ids(x), vec![1, 3]);
    assert_eq!(engine.get_user_rule_ids(y), vec![2, 4]);
    assert_eq!(engine.get_rule(1).unwrap().status, RuleStatus::Deleted);
    assert_eq!(engine.get_rule(1).unwrap().id, 1);
    assert_eq!(engine.get_rule(4).unwrap().id, 4);
    assert_eq!(engine.get_rule(5), None);
}

#[test]
fn third_rule_is_refused_until_one_is_deleted() {
    let (_vault, mut engine) = setup();
    let x = account(1);
    assert_eq!(engine.get_user_rule_count(x), 0);
    assert_eq!(create(&mut engine, x, T, "r1", TriggerType::Manual, Schedule::Daily, ActionType::Compound, None, 0), Ok(1));
    assert_eq!(create(&mut engine, x, T, "r2", TriggerType::Manual, Schedule::Daily, ActionType::Compound, None, 0), Ok(2));
    assert_eq!(engine.get_user_rule_count(x), 2);
    assert_eq!(
        create(&mut engine, x, T, "r3", TriggerType::Manual, Schedule::Daily, ActionType::Compound, None, 0),
        Err(Error::MaxRulesReached)
    );
    assert_eq!(engine.get_user_rule_count(x), 2);
    assert_eq!(engine.get_user_rule_ids(x), vec![1, 2]);
    assert_eq!(engine.get_rule(3), None);
    assert_eq!(engine.delete_rule(x, 1), Ok(RuleDeleted { rule_id: 1, owner: x }));
    assert_eq!(engine.get_user_rule_count(x), 1);
    assert_eq!(create(&mut engine, x, T, "r4", TriggerType::Manual, Schedule::Daily, ActionType::Compound, None, 0), Ok(3));
    assert_eq!(engine.get_user_rule_count(x), 2);
    assert_eq!(engine.get_user_rule_ids(x), vec![1, 2, 3]);
}

#[test]
fn the_limit_is_per_account() {
    let (_vault, mut engine) = setup();
    let x = account(1);
    let y = account(2);
    assert!(create(&mut engine, x, T, "a", TriggerType::Manual, Schedule::Daily, ActionType::Compound, None, 0).is_ok());
    assert!(create(&mut engine, x, T, "b", TriggerType::Manual, Schedule::Daily, ActionType::Compound, None, 0).is_ok());
    assert!(create(&mut engine, x, T, "c", TriggerType::Manual, Schedule::Daily, ActionType::Compound, None, 0).is_err());
    assert_eq!(create(&mut engine, y, T, "d", TriggerType::Manual, Schedule::Daily, ActionType::Compound, None, 0), Ok(3));
}

#[test]
fn pausing_does_not_free_a_place() {
    let (_vault, mut engine) = setup();
    let x = account(1);
    assert!(create(&mut engine, x, T, "a", TriggerType::Manual, Schedule::Daily, ActionType::Compound, None, 0).is_ok());
    assert!(create(&mut engine, x, T, "b", TriggerType::Manual, Schedule::Daily, ActionType::Compound, None, 0).is_ok());
    assert!(engine.pause_rule(x, 1).is_ok());
    assert_eq!(engine.get_user_rule_count(x), 2);
    assert_eq!(
        create(&mut engine, x, T, "c", TriggerType::Manual, Schedule::Daily, ActionType::Compound, None, 0),
        Err(Error::MaxRulesReached)
    );
    assert!(engine.resume_rule(x, T, 1).is_ok());
    assert_eq!(engine.get_user_rule_count(x), 2);
}

#[test]
fn pause_rule_failures() {
    let (_vault, mut engine) = setup();
    let x = account(1);
    let y = account(2);
    assert_eq!(engine.pause_rule(x, 1), Err(Error::RuleNotFound));
    assert_eq!(engine.pause_rule(x, 0), Err(Error::RuleNotFound));
    assert!(create(&mut engine, x, T, "a", TriggerType::Time, Schedule::Daily, ActionType::Compound, None, 0).is_ok());
    assert_eq!(engine.pause_rule(y, 1), Err(Error::NotRuleOwner));
    assert_eq!(engine.get_rule(1).unwrap().status, RuleStatus::Active);
    assert_eq!(engine.pause_rule(x, 1), Ok(RulePaused { rule_id: 1, owner: x }));
    assert_eq!(engine.get_rule(1).unwrap().next_execution, T + 86_400);
    assert_eq!(engine.pause_rule(x, 1), Err(Error::RuleAlreadyPaused));
    assert_eq!(engine.pause_rule(y, 1), Err(Error::NotRuleOwner));
    assert!(engine.delete_rule(x, 1).is_ok());
    assert_eq!(engine.pause_rule(x, 1), Err(Error::RuleNotFound));
    assert_eq!(engine.get_rule(1).unwrap().status, RuleStatus::Deleted);
}

#[test]
fn resume_rule_failures_and_rescheduling() {
    let (_vault, mut engine) = setup();
    let x = account(1);
    let y = account(2);
    assert_eq!(engine.resume_rule(x, T, 1), Err(Error::RuleNotFound));
    assert!(create(&mut engine, x, T, "a", TriggerType::Time, Schedule::Weekly, ActionType::Compound, None, 0).is_ok());
    assert_eq!(engine.resume_rule(x, T + 5, 1), Err(Error::RuleNotPaused));
    assert_eq!(engine.resume_rule(y, T + 5, 1), Err(Error::NotRuleOwner));
    assert!(engine.pause_rule(x, 1).is_ok());
    assert_eq!(engine.resume_rule(y, T + 5, 1), Err(Error::NotRuleOwner));
    assert_eq!(engine.get_rule(1).unwrap().status, RuleStatus::Paused);
    assert_eq!(engine.resume_rule(x, T + 5000, 1), Ok(RuleResumed { rule_id: 1, owner: x }));
    let rule = engine.get_rule(1).unwrap();
    assert_eq!(rule.status, RuleStatus::Active);
    assert_eq!(rule.next_execution, T + 5000 + 604_800);
    assert!(engine.delete_rule(x, 1).is_ok());
    assert_eq!(engine.resume_rule(x, T, 1), Err(Error::RuleNotFound));
}

#[test]
fn delete_rule_failures_and_repeated_delete() {
    let (_vault, mut engine) = setup();
    let x = account(1);
    let y = account(2);
    assert_eq!(engine.delete_rule(x, 1), Err(Error::RuleNotFound));
    assert!(create(&mut engine, x, T, "a", TriggerType::Time, Schedule::Daily, ActionType::Compound, None, 0).is_ok());
    assert!(create(&mut engine, x, T, "b", TriggerType::Time, Schedule::Daily, ActionType::Compound, None, 0).is_ok());
    assert_eq!(engine.delete_rule(y, 1), Err(Error::NotRuleOwner));
    assert_eq!(engine.get_user_rule_count(x), 2);
    assert!(engine.pause_rule(x, 2).is_ok());
    assert_eq!(engine.delete_rule(x, 2), Ok(RuleDeleted { rule_id: 2, owner: x }));
    assert_eq!(engine.get_rule(2).unwrap().status, RuleStatus::Deleted);
    assert_eq!(engine.get_user_rule_count(x), 1);
    let deleted = engine.get_rule(2).unwrap();
    assert_eq!(engine.delete_rule(x, 2), Ok(RuleDeleted { rule_id: 2, owner: x }));
    assert_eq!(engine.get_rule(2).unwrap(), deleted);
    assert_eq!(engine.get_user_rule_count(x), 1);
    assert_eq!(engine.delete_rule(y, 2), Err(Error::NotRuleOwner));
    assert_eq!(engine.get_user_rule_count(x), 1);
    assert_eq!(engine.get_rule(1).unwrap().status, RuleStatus::Active);
    assert_eq!(engine.get_user_rule_ids(x), vec![1, 2]);
}

#[test]
fn repeated_delete_frees_no_second_place() {
    let (_vault, mut engine) = setup();
    let x = account(1);
    assert_eq!(create(&mut engine, x, T, "a", TriggerType::Manual, Schedule::Daily, ActionType::Compound, None, 0), Ok(1));
    assert_eq!(create(&mut engine, x, T, "b", TriggerType::Manual, Schedule::Daily, ActionType::Compound, None, 0), Ok(2));
    assert!(engine.delete_rule(x, 1).is_ok());
    assert!(engine.delete_rule(x, 1).is_ok());
    assert_eq!(engine.get_user_rule_count(x), 1);
    assert_eq!(create(&mut engine, x, T, "c", TriggerType::Manual, Schedule::Daily, ActionType::Compound, None, 0), Ok(3));
    assert_eq!(
        create(&mut engine, x, T, "d", TriggerType::Manual, Schedule::Daily, ActionType::Compound, None, 0),
        Err(Error::MaxRulesReached)
    );
    assert_eq!(engine.get_user_rule_count(x), 2);
    assert_eq!(engine.get_rule(1).unwrap().status, RuleStatus::Deleted);
    assert_eq!(engine.get_rule(2).unwrap().status, RuleStatus::Active);
    assert_eq!(engine.get_rule(3).unwrap().status, RuleStatus::Active);
    assert_eq!(engine.get_rule(4), None);
}

#[test]
fn can_create_rule_tells_whether_the_due_time_fits() {
    let (_vault, engine) = setup();
    assert!(engine.can_create_rule(0, &Schedule::Daily));
    assert!(engine.can_create_rule(u64::MAX - 86_400, &Schedule::Daily));
    assert!(!engine.can_create_rule(u64::MAX - 86_399, &Schedule::Daily));
    assert!(!engine.can_create_rule(u64::MAX - 86_400, &Schedule::Weekly));
    assert!(engine.can_create_rule(u64::MAX - 2_592_000, &Schedule::Monthly));
}

#[test]
fn daily_transfer_runs_when_due() {
    let (mut vault, mut engine) = setup();
    let x = account(1);
    let y = account(2);
    let keeper = account(50);
    assert!(vault.deposit(x, amt(100)).is_ok());
    let id = create(&mut engine, x, T, "pay", TriggerType::Time, Schedule::Daily, ActionType::Transfer, Some(y), 30).unwrap();
    assert_eq!(engine.get_rule(id).unwrap().next_execution, T + 86_400);

    assert_eq!(
        engine.execute_rule(&mut vault, engine_address(), keeper, T, id),
        Err(Error::TriggerTimeNotReached)
    );
    assert_eq!(vault.get_balance(x), amt(100));

    let done = engine.execute_rule(&mut vault, engine_address(), keeper, T + 86_400, id);
    assert_eq!(
        done,
        Ok(RuleExecution {
            payment: Some(AutomationExecuted { owner: x, rule_id: id, recipient: y, amount: amt(30) }),
            executed: RuleExecuted { rule_id: id, owner: x, executed_at: T + 86_400 },
        })
    );
    assert_eq!(vault.get_balance(x), amt(70));
    assert_eq!(vault.get_contract_balance(), amt(70));
    let rule = engine.get_rule(id).unwrap();
    assert_eq!(rule.last_executed, T + 86_400);
    assert_eq!(rule.next_execution, T + 172_800);
    assert_eq!(rule.execution_count, 1);
    assert_eq!(rule.status, RuleStatus::Active);
}

#[test]
fn early_execution_changes_nothing() {
    let (mut vault, mut engine) = setup();
    let x = account(1);
    let y = account(2);
    assert!(vault.deposit(x, amt(100)).is_ok());
    let id = create(&mut engine, x, T, "pay", TriggerType::Time, Schedule::Weekly, ActionType::Transfer, Some(y), 30).unwrap();
    let before = engine.get_rule(id).unwrap();
    assert_eq!(
        engine.execute_rule(&mut vault, engine_address(), x, T + 604_799, id),
        Err(Error::TriggerTimeNotReached)
    );
    assert_eq!(engine.get_rule(id).unwrap(), before);
    assert_eq!(vault.get_balance(x), amt(100));
    assert_eq!(vault.get_contract_balance(), amt(100));
}

#[test]
fn late_execution_reschedules_from_the_run() {
    let (mut vault, mut engine) = setup();
    let x = account(1);
    let id = create(&mut engine, x, T, "c", TriggerType::Time, Schedule::Daily, ActionType::Compound, None, 0).unwrap();
    let late = T + 10 * 86_400 + 17;
    assert!(engine.execute_rule(&mut vault, engine_address(), account(9), late, id).is_ok());
    let rule = engine.get_rule(id).unwrap();
    assert_eq!(rule.last_executed, late);
    assert_eq!(rule.next_execution, late + 86_400);
    assert_eq!(rule.execution_count, 1);
    assert_eq!(
        engine.execute_rule(&mut vault, engine_address(), account(9), late + 86_399, id),
        Err(Error::TriggerTimeNotReached)
    );
    assert!(engine.execute_rule(&mut vault, engine_address(), account(9), late + 86_400, id).is_ok());
    assert_eq!(engine.get_rule(id).unwrap().execution_count, 2);
}

#[test]
fn execute_rule_failures() {
    let (mut vault, mut engine) = setup();
    let x = account(1);
    let y = account(2);
    assert_eq!(
        engine.execute_rule(&mut vault, engine_address(), x, T, 1),
        Err(Error::RuleNotFound)
    );
    let id = create(&mut engine, x, T, "m", TriggerType::Manual, Schedule::Daily, ActionType::Transfer, Some(y), 30).unwrap();
    assert_eq!(
        engine.execute_rule(&mut vault, engine_address(), y, T, id),
        Err(Error::NotRuleOwner)
    );
    assert_eq!(
        engine.execute_rule(&mut vault, engine_address(), x, T, id),
        Err(Error::InsufficientBalance)
    );
    assert_eq!(engine.get_rule(id).unwrap().execution_count, 0);
    assert_eq!(engine.get_rule(id).unwrap().last_executed, 0);
    assert!(engine.pause_rule(x, id).is_ok());
    assert_eq!(
        engine.execute_rule(&mut vault, engine_address(), x, T, id),
        Err(Error::RuleNotActive)
    );
    assert!(engine.delete_rule(x, id).is_ok());
    assert_eq!(
        engine.execute_rule(&mut vault, engine_address(), x, T, id),
        Err(Error::RuleNotActive)
    );
}

#[test]
fn paused_time_rule_is_not_active_rather_than_early() {
    let (mut vault, mut engine) = setup();
    let x = account(1);
    let id = create(&mut engine, x, T, "t", TriggerType::Time, Schedule::Daily, ActionType::Compound, None, 0).unwrap();
    assert!(engine.pause_rule(x, id).is_ok());
    assert_eq!(
        engine.execute_rule(&mut vault, engine_address(), x, T, id),
        Err(Error::RuleNotActive)
    );
}

#[test]
fn manual_rule_runs_for_its_owner_at_any_time() {
    let (mut vault, mut engine) = setup();
    let x = account(1);
    let y = account(2);
    assert!(vault.deposit(x, amt(10)).is_ok());
    let id = create(&mut engine, x, T, "m", TriggerType::Manual, Schedule::Monthly, ActionType::Transfer, Some(y), 4).unwrap();
    assert!(engine.execute_rule(&mut vault, engine_address(), x, 0, id).is_ok());
    assert!(engine.execute_rule(&mut vault, engine_address(), x, 1, id).is_ok());
    assert_eq!(vault.get_balance(x), amt(2));
    assert_eq!(
        engine.execute_rule(&mut vault, engine_address(), x, 2, id),
        Err(Error::InsufficientBalance)
    );
    let rule = engine.get_rule(id).unwrap();
    assert_eq!(rule.execution_count, 2);
    assert_eq!(rule.last_executed, 1);
    assert_eq!(rule.next_execution, 1 + 2_592_000);
}

#[test]
fn conditional_rule_runs_for_anyone() {
    let (mut vault, mut engine) = setup();
    let x = account(1);
    let y = account(2);
    assert!(vault.deposit(x, amt(10)).is_ok());
    let id = create(&mut engine, x, T, "c", TriggerType::Condition, Schedule::Daily, ActionType::Split, Some(y), 3).unwrap();
    let done = engine.execute_rule(&mut vault, engine_address(), account(77), 5, id);
    assert_eq!(
        done,
        Ok(RuleExecution {
            payment: Some(AutomationExecuted { owner: x, rule_id: id, recipient: y, amount: amt(3) }),
            executed: RuleExecuted { rule_id: id, owner: x, executed_at: 5 },
        })
    );
    assert_eq!(vault.get_balance(x), amt(7));
}

#[test]
fn compound_rule_moves_nothing() {
    let (mut vault, mut engine) = setup();
    let x = account(1);
    assert!(vault.deposit(x, amt(10)).is_ok());
    let id = create(&mut engine, x, T, "c", TriggerType::Manual, Schedule::Daily, ActionType::Compound, None, 5).unwrap();
    assert_eq!(
        engine.execute_rule(&mut vault, engine_address(), x, T, id),
        Ok(RuleExecution {
            payment: None,
            executed: RuleExecuted { rule_id: id, owner: x, executed_at: T },
        })
    );
    assert_eq!(vault.get_balance(x), amt(10));
    assert_eq!(engine.get_rule(id).unwrap().execution_count, 1);
}

#[test]
fn transfer_without_recipient_or_vault_is_misconfigured() {
    let (mut vault, mut engine) = setup();
    let x = account(1);
    assert!(vault.deposit(x, amt(10)).is_ok());
    let id = create(&mut engine, x, T, "t", TriggerType::Manual, Schedule::Daily, ActionType::Transfer, None, 5).unwrap();
    assert_eq!(
        engine.execute_rule(&mut vault, engine_address(), x, T, id),
        Err(Error::InvalidRuleConfig)
    );
    assert_eq!(engine.get_rule(id).unwrap().execution_count, 0);

    let mut lone = AutomationEngine::init(None);
    let id = create(&mut lone, x, T, "t", TriggerType::Manual, Schedule::Daily, ActionType::Transfer, Some(account(2)), 5).unwrap();
    assert_eq!(
        lone.execute_rule(&mut vault, engine_address(), x, T, id),
        Err(Error::InvalidRuleConfig)
    );
    assert_eq!(vault.get_balance(x), amt(10));
    let compound = create(&mut lone, x, T, "c", TriggerType::Manual, Schedule::Daily, ActionType::Compound, None, 5).unwrap();
    assert!(lone.execute_rule(&mut vault, engine_address(), x, T, compound).is_ok());
}

#[test]
fn vault_refuses_an_engine_it_does_not_trust() {
    let mut vault = AutomationVault::init(None);
    let mut engine = AutomationEngine::init(Some(vault_address()));
    let x = account(1);
    assert!(vault.deposit(x, amt(10)).is_ok());
    let id = create(&mut engine, x, T, "t", TriggerType::Manual, Schedule::Daily, ActionType::Transfer, Some(account(2)), 5).unwrap();
    assert_eq!(
        engine.execute_rule(&mut vault, engine_address(), x, T, id),
        Err(Error::UnauthorizedExecutor)
    );
    assert_eq!(engine.get_rule(id).unwrap().execution_count, 0);
    vault.set_automation_engine(contract(201));
    assert_eq!(
        engine.execute_rule(&mut vault, engine_address(), x, T, id),
        Err(Error::UnauthorizedExecutor)
    );
    vault.set_automation_engine(engine_address());
    assert!(engine.execute_rule(&mut vault, engine_address(), x, T, id).is_ok());
    assert_eq!(vault.get_balance(x), amt(5));
}

#[test]
fn engine_execute_transfer_asks_the_vault() {
    let (mut vault, engine) = setup();
    let x = account(1);
    let y = account(2);
    assert!(vault.deposit(x, amt(10)).is_ok());
    let rule = AutomationRule::new(
        9,
        x,
        "t".to_string(),
        TriggerType::Manual,
        Schedule::Daily,
        ActionType::Transfer,
        Some(y),
        amt(4),
        0,
    );
    assert_eq!(
        engine.execute_transfer(&mut vault, engine_address(), &rule),
        Ok(AutomationExecuted { owner: x, rule_id: 9, recipient: y, amount: amt(4) })
    );
    assert_eq!(vault.get_balance(x), amt(6));
    assert_eq!(
        engine.execute_transfer(&mut vault, contract(1), &rule),
        Err(Error::UnauthorizedExecutor)
    );
}
