use casperflow_contracts::amount::Amount;
use casperflow_contracts::errors::Error;
use casperflow_contracts::events::{AutomationExecuted, Deposited, Withdrawn};
use casperflow_contracts::vault::{
    balance_after_debit, balance_after_deposit, balance_after_withdrawal, check_executor, fits,
    AutomationVault,
};
use odra_core::casper_types::account::AccountHash;
use odra_core::casper_types::contracts::ContractPackageHash;
use odra_core::prelude::Address;

fn account(n: u8) -> Address {
    Address::Account(AccountHash::new([n; 32]))
}

fn contract(n: u8) -> Address {
    Address::Contract(ContractPackageHash::new([n; 32]))
}

fn amt(v: u64) -> Amount {
    Amount::from_u64(v)
}

#[test]
fn test_deposit_and_withdraw() {
    let mut vault = AutomationVault::init(None);

    let depositor = account(0);
    let deposit_amount = amt(1_000_000_000);

    let deposited = vault.deposit(depositor, deposit_amount);
    assert!(deposited.is_ok());

    assert_eq!(vault.get_balance(depositor), deposit_amount);

    let withdraw_amount = amt(500_000_000);
    let withdrawn = vault.withdraw(depositor, withdraw_amount);
    assert!(withdrawn.is_ok());

    assert_eq!(vault.get_balance(depositor), amt(1_000_000_000 - 500_000_000));
}

#[test]
fn test_insufficient_balance() {
    let mut vault = AutomationVault::init(None);

    let depositor = account(0);
    let deposit_amount = amt(100_000_000);
    let withdraw_amount = amt(200_000_000);

    assert!(vault.deposit(depositor, deposit_amount).is_ok());

    let result = vault.withdraw(depositor, withdraw_amount);
    assert!(result.is_err());
    assert_eq!(result, Err(Error::InsufficientBalance));
    assert_eq!(vault.get_balance(depositor), deposit_amount);
}

#[test]
fn deposit_returns_record_with_new_balance() {
    let mut vault = AutomationVault::init(None);
    let x = account(1);
    assert_eq!(
        vault.deposit(x, amt(40)),
        Ok(Deposited { owner: x, amount: amt(40), new_balance: amt(40) })
    );
    assert_eq!(
        vault.deposit(x, amt(2)),
        Ok(Deposited { owner: x, amount: amt(2), new_balance: amt(42) })
    );
    assert_eq!(vault.get_balance(x), amt(42));
    assert_eq!(vault.get_contract_balance(), amt(42));
}

#[test]
fn deposit_of_zero_is_refused() {
    let mut vault = AutomationVault::init(None);
    let x = account(1);
    assert_eq!(vault.deposit(x, amt(0)), Err(Error::ZeroAmount));
    assert_eq!(vault.get_balance(x), amt(0));
    assert_eq!(vault.get_contract_balance(), amt(0));
}

#[test]
fn withdraw_of_zero_is_refused() {
    let mut vault = AutomationVault::init(None);
    let x = account(1);
    assert!(vault.deposit(x, amt(5)).is_ok());
    assert_eq!(vault.withdraw(x, amt(0)), Err(Error::ZeroAmount));
    assert_eq!(vault.get_balance(x), amt(5));
}

#[test]
fn withdraw_returns_record_with_new_balance() {
    let mut vault = AutomationVault::init(None);
    let x = account(1);
    assert!(vault.deposit(x, amt(100)).is_ok());
    assert_eq!(
        vault.withdraw(x, amt(30)),
        Ok(Withdrawn { owner: x, amount: amt(30), new_balance: amt(70) })
    );
    assert_eq!(vault.get_contract_balance(), amt(70));
}

#[test]
fn withdraw_all_then_one_more_fails() {
    let mut vault = AutomationVault::init(None);
    let x = account(7);
    assert!(vault.deposit(x, amt(50)).is_ok());
    assert!(vault.withdraw(x, amt(50)).is_ok());
    assert_eq!(vault.get_balance(x), amt(0));
    assert_eq!(vault.withdraw(x, amt(1)), Err(Error::InsufficientBalance));
    assert_eq!(vault.get_balance(x), amt(0));
    assert_eq!(vault.get_contract_balance(), amt(0));
}

#[test]
fn balances_of_accounts_are_kept_apart() {
    let mut vault = AutomationVault::init(None);
    let x = account(1);
    let y = account(2);
    let z = contract(1);
    assert!(vault.deposit(x, amt(10)).is_ok());
    assert!(vault.deposit(y, amt(20)).is_ok());
    assert!(vault.deposit(z, amt(30)).is_ok());
    assert!(vault.withdraw(y, amt(5)).is_ok());
    assert_eq!(vault.get_balance(x), amt(10));
    assert_eq!(vault.get_balance(y), amt(15));
    assert_eq!(vault.get_balance(z), amt(30));
    assert_eq!(vault.get_balance(account(3)), amt(0));
    assert_eq!(vault.get_contract_balance(), amt(55));
}

#[test]
fn execute_transfer_without_engine_is_unauthorized() {
    let mut vault = AutomationVault::init(None);
    let x = account(1);
    let y = account(2);
    assert!(vault.deposit(x, amt(100)).is_ok());
    assert_eq!(vault.get_automation_engine(), None);
    assert_eq!(
        vault.execute_transfer(contract(9), x, y, amt(10), 1),
        Err(Error::UnauthorizedExecutor)
    );
    assert_eq!(vault.get_balance(x), amt(100));
    assert_eq!(vault.get_balance(y), amt(0));
}

#[test]
fn execute_transfer_by_stranger_is_unauthorized() {
    let engine = contract(9);
    let mut vault = AutomationVault::init(Some(engine));
    let x = account(1);
    let y = account(2);
    assert!(vault.deposit(x, amt(100)).is_ok());
    assert_eq!(
        vault.execute_transfer(x, x, y, amt(10), 1),
        Err(Error::UnauthorizedExecutor)
    );
    assert_eq!(
        vault.execute_transfer(contract(8), x, y, amt(10), 1),
        Err(Error::UnauthorizedExecutor)
    );
    assert_eq!(vault.get_balance(x), amt(100));
    assert_eq!(vault.get_balance(y), amt(0));
    assert_eq!(vault.get_contract_balance(), amt(100));
}

#[test]
fn execute_transfer_by_engine_debits_owner() {
    let engine = contract(9);
    let mut vault = AutomationVault::init(None);
    vault.set_automation_engine(engine);
    assert_eq!(vault.get_automation_engine(), Some(engine));
    let x = account(1);
    let y = account(2);
    assert!(vault.deposit(x, amt(100)).is_ok());
    assert_eq!(
        vault.execute_transfer(engine, x, y, amt(30), 17),
        Ok(AutomationExecuted { owner: x, rule_id: 17, recipient: y, amount: amt(30) })
    );
    assert_eq!(vault.get_balance(x), amt(70));
    assert_eq!(vault.get_balance(y), amt(0));
    assert_eq!(vault.get_contract_balance(), amt(70));
}

#[test]
fn execute_transfer_beyond_balance_is_refused() {
    let engine = contract(9);
    let mut vault = AutomationVault::init(Some(engine));
    let x = account(1);
    let y = account(2);
    assert!(vault.deposit(x, amt(10)).is_ok());
    assert_eq!(
        vault.execute_transfer(engine, x, y, amt(11), 1),
        Err(Error::InsufficientBalance)
    );
    assert_eq!(vault.get_balance(x), amt(10));
}

#[test]
fn set_automation_engine_replaces_the_engine() {
    let first = contract(1);
    let second = contract(2);
    let mut vault = AutomationVault::init(Some(first));
    let x = account(1);
    assert!(vault.deposit(x, amt(10)).is_ok());
    vault.set_automation_engine(second);
    assert_eq!(vault.get_automation_engine(), Some(second));
    assert_eq!(
        vault.execute_transfer(first, x, x, amt(1), 1),
        Err(Error::UnauthorizedExecutor)
    );
    assert!(vault.execute_transfer(second, x, x, amt(1), 1).is_ok());
    assert_eq!(vault.get_balance(x), amt(9));
}

#[test]
fn custody_equals_deposits_less_payments() {
    let engine = contract(9);
    let mut vault = AutomationVault::init(Some(engine));
    let x = account(1);
    let y = account(2);
    let mut deposited: u64 = 0;
    let mut paid_out: u64 = 0;
    assert!(vault.deposit(x, amt(100)).is_ok());
    deposited += 100;
    assert!(vault.deposit(y, amt(7)).is_ok());
    deposited += 7;
    assert!(vault.withdraw(x, amt(200)).is_err());
    assert!(vault.withdraw(x, amt(25)).is_ok());
    paid_out += 25;
    assert!(vault.execute_transfer(engine, y, x, amt(7), 3).is_ok());
    paid_out += 7;
    assert!(vault.execute_transfer(x, y, x, amt(1), 3).is_err());
    assert!(vault.deposit(y, amt(0)).is_err());
    let sum = Amount::from_u64(75);
    assert_eq!(vault.get_balance(x), amt(75));
    assert_eq!(vault.get_balance(y), amt(0));
    assert_eq!(vault.get_contract_balance(), sum);
    assert_eq!(vault.get_contract_balance(), amt(deposited - paid_out));
}

#[test]
fn has_room_for_tells_whether_custody_fits() {
    let mut vault = AutomationVault::init(None);
    let x = account(1);
    let max = Amount { limbs: [u64::MAX; 8] };
    assert!(vault.has_room_for(max));
    assert!(vault.deposit(x, amt(1)).is_ok());
    assert!(!vault.has_room_for(max));
    assert!(vault.has_room_for(Amount { limbs: [u64::MAX - 1, u64::MAX, u64::MAX, u64::MAX, u64::MAX, u64::MAX, u64::MAX, u64::MAX] }));
}

#[test]
fn deposit_carries_into_the_next_word() {
    let mut vault = AutomationVault::init(None);
    let x = account(1);
    assert!(vault.deposit(x, amt(u64::MAX)).is_ok());
    assert!(vault.deposit(x, amt(1)).is_ok());
    assert_eq!(vault.get_balance(x), Amount { limbs: [0, 1, 0, 0, 0, 0, 0, 0] });
    assert!(vault.withdraw(x, amt(1)).is_ok());
    assert_eq!(vault.get_balance(x), amt(u64::MAX));
}

#[test]
fn balance_rules_on_plain_values() {
    assert_eq!(balance_after_deposit(amt(5), amt(0)), Err(Error::ZeroAmount));
    assert_eq!(balance_after_deposit(amt(5), amt(3)), Ok(amt(8)));
    assert_eq!(balance_after_withdrawal(amt(5), amt(0)), Err(Error::ZeroAmount));
    assert_eq!(balance_after_withdrawal(amt(5), amt(6)), Err(Error::InsufficientBalance));
    assert_eq!(balance_after_withdrawal(amt(5), amt(5)), Ok(amt(0)));
    assert_eq!(balance_after_debit(amt(5), amt(0)), Ok(amt(5)));
    assert_eq!(balance_after_debit(amt(5), amt(6)), Err(Error::InsufficientBalance));
    assert_eq!(balance_after_debit(amt(5), amt(2)), Ok(amt(3)));
    let big = Amount { limbs: [0, 0, 0, 0, 0, 0, 0, 1] };
    let small = Amount { limbs: [u64::MAX, u64::MAX, u64::MAX, u64::MAX, u64::MAX, u64::MAX, u64::MAX, 0] };
    assert_eq!(balance_after_debit(small, big), Err(Error::InsufficientBalance));
    assert_eq!(balance_after_debit(big, small), Ok(amt(1)));
}

#[test]
fn check_executor_admits_only_the_engine() {
    let engine = contract(9);
    assert_eq!(check_executor(None, engine), Err(Error::UnauthorizedExecutor));
    assert_eq!(check_executor(Some(engine), account(9)), Err(Error::UnauthorizedExecutor));
    assert_eq!(check_executor(Some(engine), contract(8)), Err(Error::UnauthorizedExecutor));
    assert_eq!(check_executor(Some(engine), engine), Ok(()));
}

#[test]
fn fits_tells_whether_a_sum_stays_in_range() {
    let max = Amount { limbs: [u64::MAX; 8] };
    assert!(fits(amt(0), amt(0)));
    assert!(fits(amt(u64::MAX), amt(u64::MAX)));
    assert!(fits(max, amt(0)));
    assert!(fits(amt(0), max));
    assert!(!fits(max, amt(1)));
    assert!(!fits(amt(1), max));
    assert!(!fits(max, max));
}
