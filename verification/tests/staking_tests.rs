use casperflow_contracts::account_map::AccountMap;
use casperflow_contracts::amount::Amount;
use casperflow_contracts::errors::Error;
use casperflow_contracts::events::{RewardsCompounded, Unstaked};
use casperflow_contracts::staking_adapter::{
    check_stake_amount, pending_rewards, require_validator, stake_after_staking,
    stake_after_unstaking, StakeOrder, StakingAdapter,
};
use odra_core::casper_types::account::AccountHash;
use odra_core::casper_types::{PublicKey, SecretKey};
use odra_core::prelude::Address;

fn account(n: u8) -> Address {
    Address::Account(AccountHash::new([n; 32]))
}

fn amt(v: u64) -> Amount {
    Amount::from_u64(v)
}

fn validator(n: u8) -> PublicKey {
    PublicKey::from(&SecretKey::ed25519_from_bytes([n; 32]).unwrap())
}

#[test]
fn test_stake_and_unstake() {
    let validator = validator(0);
    let mut adapter = StakingAdapter::init(Some(validator.clone()));

    let staker = account(0);
    let stake_amount = amt(1_000_000_000_000);

    let order = adapter.stake(staker, stake_amount);
    assert_eq!(order, Ok(StakeOrder { validator, amount: stake_amount }));

    assert_eq!(adapter.get_user_stake(staker), stake_amount);
}

#[test]
fn stake_failures() {
    let staker = account(1);
    let mut adapter = StakingAdapter::init(None);
    assert_eq!(adapter.stake(staker, amt(0)), Err(Error::ZeroAmount));
    assert_eq!(adapter.stake(staker, amt(5)), Err(Error::InvalidValidator));
    assert_eq!(adapter.get_user_stake(staker), amt(0));
    assert_eq!(adapter.get_default_validator(), None);
    adapter.set_default_validator(validator(3));
    assert_eq!(adapter.get_default_validator(), Some(validator(3)));
    assert_eq!(adapter.stake(staker, amt(0)), Err(Error::ZeroAmount));
    assert!(adapter.stake(staker, amt(5)).is_ok());
    assert!(adapter.stake(staker, amt(6)).is_ok());
    assert_eq!(adapter.get_user_stake(staker), amt(11));
}

#[test]
fn stake_to_validator_needs_no_default() {
    let staker = account(1);
    let mut adapter = StakingAdapter::init(None);
    assert_eq!(adapter.stake_to_validator(staker, amt(0), validator(4)), Err(Error::ZeroAmount));
    assert_eq!(
        adapter.stake_to_validator(staker, amt(9), validator(4)),
        Ok(StakeOrder { validator: validator(4), amount: amt(9) })
    );
    assert_eq!(adapter.get_user_stake(staker), amt(9));
    assert_eq!(adapter.get_user_stake(account(2)), amt(0));
}

#[test]
fn unstake_failures_and_success() {
    let staker = account(1);
    let mut adapter = StakingAdapter::init(None);
    assert!(adapter.stake_to_validator(staker, amt(10), validator(4)).is_ok());
    assert_eq!(adapter.unstake(staker, amt(0)), Err(Error::ZeroAmount));
    assert_eq!(adapter.unstake(staker, amt(5)), Err(Error::InvalidValidator));
    adapter.set_default_validator(validator(4));
    assert_eq!(adapter.unstake(staker, amt(11)), Err(Error::InsufficientStakingBalance));
    assert_eq!(adapter.get_user_stake(staker), amt(10));
    assert_eq!(
        adapter.unstake(staker, amt(4)),
        Ok((
            StakeOrder { validator: validator(4), amount: amt(4) },
            Unstaked { owner: staker, amount: amt(4) }
        ))
    );
    assert_eq!(adapter.get_user_stake(staker), amt(6));
    assert!(adapter.unstake(staker, amt(6)).is_ok());
    assert_eq!(adapter.get_user_stake(staker), amt(0));
    assert_eq!(adapter.unstake(staker, amt(1)), Err(Error::InsufficientStakingBalance));
}

#[test]
fn compound_rewards_raises_the_stake_to_what_is_delegated() {
    let owner = account(1);
    let mut adapter = StakingAdapter::init(Some(validator(1)));
    assert!(adapter.stake(owner, amt(100)).is_ok());
    assert_eq!(adapter.compound_rewards(owner, amt(100)), None);
    assert_eq!(adapter.compound_rewards(owner, amt(99)), None);
    assert_eq!(adapter.get_user_stake(owner), amt(100));
    assert_eq!(
        adapter.compound_rewards(owner, amt(107)),
        Some(RewardsCompounded { owner, amount: amt(7) })
    );
    assert_eq!(adapter.get_user_stake(owner), amt(107));
    let other = account(2);
    assert_eq!(
        adapter.compound_rewards(other, amt(3)),
        Some(RewardsCompounded { owner: other, amount: amt(3) })
    );
    assert_eq!(adapter.compound_rewards(account(3), amt(0)), None);
}

#[test]
fn adapter_engine_is_set_and_read() {
    let mut adapter = StakingAdapter::init(None);
    assert_eq!(adapter.get_automation_engine(), None);
    adapter.set_automation_engine(account(9));
    assert_eq!(adapter.get_automation_engine(), Some(account(9)));
}

#[test]
fn account_map_keeps_one_value_per_account() {
    let mut map: AccountMap<u32> = AccountMap::new();
    assert_eq!(map.get(&account(1)), None);
    map.set(account(1), 10);
    map.set(account(2), 20);
    assert_eq!(map.get(&account(1)), Some(&10));
    assert_eq!(map.get(&account(2)), Some(&20));
    map.set(account(1), 11);
    assert_eq!(map.get(&account(1)), Some(&11));
    assert_eq!(map.get(&account(2)), Some(&20));
    assert_eq!(map.get(&account(3)), None);
}

#[test]
fn staking_rules_on_plain_values() {
    assert_eq!(check_stake_amount(amt(0)), Err(Error::ZeroAmount));
    assert_eq!(check_stake_amount(amt(1)), Ok(()));
    assert_eq!(require_validator(None), Err(Error::InvalidValidator));
    assert_eq!(require_validator(Some(validator(2))), Ok(validator(2)));
    assert_eq!(stake_after_unstaking(amt(5), amt(6)), Err(Error::InsufficientStakingBalance));
    assert_eq!(stake_after_unstaking(amt(5), amt(5)), Ok(amt(0)));
    assert_eq!(stake_after_unstaking(amt(5), amt(2)), Ok(amt(3)));
    assert_eq!(pending_rewards(amt(5), amt(5)), None);
    assert_eq!(pending_rewards(amt(4), amt(5)), None);
    assert_eq!(pending_rewards(amt(9), amt(5)), Some(amt(4)));
}

#[test]
fn stake_after_staking_adds_the_amount() {
    assert_eq!(stake_after_staking(amt(5), amt(0)), Err(Error::ZeroAmount));
    assert_eq!(stake_after_staking(amt(5), amt(3)), Ok(amt(8)));
    assert_eq!(
        stake_after_staking(amt(u64::MAX), amt(1)),
        Ok(Amount { limbs: [0, 1, 0, 0, 0, 0, 0, 0] })
    );
}

#[test]
fn adapter_has_room_for_what_fits() {
    let staker = account(1);
    let max = Amount { limbs: [u64::MAX; 8] };
    let mut adapter = StakingAdapter::init(Some(validator(1)));
    assert!(adapter.has_room_for(staker, max));
    assert!(adapter.stake(staker, amt(1)).is_ok());
    assert!(!adapter.has_room_for(staker, max));
    assert!(adapter.has_room_for(account(2), max));
    assert!(adapter.has_room_for(staker, amt(u64::MAX)));
}
