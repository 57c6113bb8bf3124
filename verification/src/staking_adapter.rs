//! The staking adapter: what each account has staked through it, and the
//! orders it gives to delegate and undelegate.
//!
//! The adapter does not talk to the staking system itself. An operation that
//! succeeds returns the order that the caller then carries out, and
//! `compound_rewards` takes the delegated amount that the caller has read.

use vstd::prelude::*;
use vstd::arithmetic::power2::pow2;
use odra_core::prelude::Address;
use odra_core::casper_types::PublicKey;
use crate::account_map::AccountMap;
use crate::amount::Amount;
use crate::errors::Error;
use crate::events::{RewardsCompounded, Unstaked};
use crate::vault::{fits, values_of};

verus! {

/// An order to delegate `amount` to `validator`, or to undelegate it.
#[derive(Clone, Debug, PartialEq, Eq)]
pub struct StakeOrder {
    pub validator: PublicKey,
    pub amount: Amount,
}

/// What the staking adapter stands for.
pub struct StakingView {
    /// The validator that `stake` and `unstake` deal with.
    pub default_validator: Option<PublicKey>,
    /// What each account has staked.
    pub user_stakes: Map<Address, nat>,
    /// The engine that may ask for staking operations.
    pub authorized_engine: Option<Address>,
}

impl StakingView {
    /// What `owner` has staked: zero where nothing was ever written.
    pub open spec fn stake_of(self, owner: Address) -> nat {
        if self.user_stakes.contains_key(owner) {
            self.user_stakes[owner]
        } else {
            0
        }
    }

    /// The adapter with `stake` as what `owner` has staked.
    pub open spec fn with_stake(self, owner: Address, stake: nat) -> StakingView {
        StakingView { user_stakes: self.user_stakes.insert(owner, stake), ..self }
    }

    /// What `caller`'s request to stake `amount` with `validator` leads to.
    pub open spec fn stake_to_validator(self, caller: Address, amount: nat) -> Result<
        StakingView,
        Error,
    > {
        if amount == 0 {
            Err(Error::ZeroAmount)
        } else {
            Ok(self.with_stake(caller, self.stake_of(caller) + amount))
        }
    }

    /// What `caller`'s request to stake `amount` with the default validator
    /// leads to.
    pub open spec fn stake(self, caller: Address, amount: nat) -> Result<StakingView, Error> {
        if amount == 0 {
            Err(Error::ZeroAmount)
        } else if self.default_validator is None {
            Err(Error::InvalidValidator)
        } else {
            Ok(self.with_stake(caller, self.stake_of(caller) + amount))
        }
    }

    /// What `caller`'s request to unstake `amount` from the default validator
    /// leads to.
    pub open spec fn unstake(self, caller: Address, amount: nat) -> Result<StakingView, Error> {
        if amount == 0 {
            Err(Error::ZeroAmount)
        } else if self.default_validator is None {
            Err(Error::InvalidValidator)
        } else if self.stake_of(caller) < amount {
            Err(Error::InsufficientStakingBalance)
        } else {
            Ok(self.with_stake(caller, (self.stake_of(caller) - amount) as nat))
        }
    }

    /// The adapter after `owner`'s rewards are compounded, where `delegated`
    /// is delegated in all: `owner`'s stake becomes `delegated` where that is
    /// more, and nothing changes where it is not.
    pub open spec fn compound_rewards(self, owner: Address, delegated: nat) -> StakingView {
        if delegated > self.stake_of(owner) {
            self.with_stake(owner, delegated)
        } else {
            self
        }
    }
}

/// Admits an amount to stake or unstake that is not zero.
pub fn check_stake_amount(amount: Amount) -> (outcome: Result<(), Error>)
    ensures
        outcome == if amount.value() == 0 {
            Err::<(), Error>(Error::ZeroAmount)
        } else {
            Ok::<(), Error>(())
        },
{
    if amount.is_zero() {
        return Err(Error::ZeroAmount);
    }
    Ok(())
}

/// The stake after `amount` was added to it, or `ZeroAmount`.
pub fn stake_after_staking(stake: Amount, amount: Amount) -> (outcome: Result<Amount, Error>)
    requires
        amount.value() != 0 ==> stake.value() + amount.value() < pow2(512),
    ensures
        amount.value() == 0 ==> outcome == Err::<Amount, Error>(Error::ZeroAmount),
        amount.value() != 0 ==> (outcome matches Ok(sum) && sum.value() == stake.value()
            + amount.value()),
{
    check_stake_amount(amount)?;
    Ok(stake.plus(&amount))
}

/// The validator to deal with, or `InvalidValidator` where none is set.
pub fn require_validator(validator: Option<PublicKey>) -> (outcome: Result<PublicKey, Error>)
    ensures
        outcome == match validator {
            Some(key) => Ok::<PublicKey, Error>(key),
            None => Err::<PublicKey, Error>(Error::InvalidValidator),
        },
{
    match validator {
        Some(key) => Ok(key),
        None => Err(Error::InvalidValidator),
    }
}

/// The stake after `amount` has left it, or `InsufficientStakingBalance`
/// where the stake is smaller.
pub fn stake_after_unstaking(stake: Amount, amount: Amount) -> (outcome: Result<Amount, Error>)
    ensures
        stake.value() < amount.value() ==> outcome == Err::<Amount, Error>(
            Error::InsufficientStakingBalance,
        ),
        stake.value() >= amount.value() ==> (outcome matches Ok(rest) && rest.value()
            == stake.value() - amount.value()),
{
    if stake.less_than(&amount) {
        return Err(Error::InsufficientStakingBalance);
    }
    Ok(stake.minus(&amount))
}

/// The rewards of an account with `stake`, where `delegated` is delegated
/// in all: the difference, where `delegated` is more, and none otherwise.
pub fn pending_rewards(delegated: Amount, stake: Amount) -> (rewards: Option<Amount>)
    ensures
        delegated.value() <= stake.value() ==> rewards is None,
        delegated.value() > stake.value() ==> (rewards matches Some(amount) && amount.value()
            == delegated.value() - stake.value()),
{
    if stake.less_than(&delegated) {
        Some(delegated.minus(&stake))
    } else {
        None
    }
}

/// The staking adapter.
pub struct StakingAdapter {
    /// The validator that `stake` and `unstake` deal with.
    default_validator: Option<PublicKey>,
    /// What each account has staked.
    user_stakes: AccountMap<Amount>,
    /// The engine that may ask for staking operations.
    authorized_engine: Option<Address>,
}

impl View for StakingAdapter {
    type V = StakingView;

    closed spec fn view(&self) -> StakingView {
        StakingView {
            default_validator: self.default_validator,
            user_stakes: values_of(self.user_stakes@),
            authorized_engine: self.authorized_engine,
        }
    }
}

impl StakingAdapter {
    /// The store of stakes is sound.
    pub closed spec fn wf(&self) -> bool {
        self.user_stakes.wf()
    }

    /// An adapter without stakes that deals with `default_validator`, if one
    /// is given.
    pub fn init(default_validator: Option<PublicKey>) -> (adapter: StakingAdapter)
        ensures
            adapter.wf(),
            adapter@ == (StakingView {
                default_validator,
                user_stakes: Map::<Address, nat>::empty(),
                authorized_engine: None,
            }),
    {
        let adapter = StakingAdapter {
            default_validator,
            user_stakes: AccountMap::new(),
            authorized_engine: None,
        };
        assert(adapter@.user_stakes =~= Map::<Address, nat>::empty());
        adapter
    }

    /// What `owner` has staked.
    pub fn get_user_stake(&self, owner: Address) -> (stake: Amount)
        requires
            self.wf(),
        ensures
            stake.value() == self@.stake_of(owner),
    {
        match self.user_stakes.get(&owner) {
            Some(stake) => *stake,
            None => Amount::from_u64(0),
        }
    }

    /// Whether `amount` more on the stake of `caller` stays below `2^512`.
    pub fn has_room_for(&self, caller: Address, amount: Amount) -> (room: bool)
        requires
            self.wf(),
        ensures
            room == (self@.stake_of(caller) + amount.value() < pow2(512)),
    {
        fits(self.get_user_stake(caller), amount)
    }

    /// The validator that `stake` and `unstake` deal with.
    pub fn get_default_validator(&self) -> (validator: Option<PublicKey>)
        ensures
            validator == self@.default_validator,
    {
        match &self.default_validator {
            Some(validator) => Some(validator.clone()),
            None => None,
        }
    }

    /// The engine that may ask for staking operations.
    pub fn get_automation_engine(&self) -> (engine: Option<Address>)
        ensures
            engine == self@.authorized_engine,
    {
        self.authorized_engine
    }

    /// Makes `engine` the engine that may ask for staking operations.
    pub fn set_automation_engine(&mut self, engine: Address)
        requires
            old(self).wf(),
        ensures
            final(self).wf(),
            final(self)@ == (StakingView { authorized_engine: Some(engine), ..old(self)@ }),
    {
        self.authorized_engine = Some(engine);
    }

    /// Makes `validator` the validator that `stake` and `unstake` deal with.
    pub fn set_default_validator(&mut self, validator: PublicKey)
        requires
            old(self).wf(),
        ensures
            final(self).wf(),
            final(self)@ == (StakingView { default_validator: Some(validator), ..old(self)@ }),
    {
        self.default_validator = Some(validator);
    }

    /// Writes `stake` as what `owner` has staked.
    fn put_stake(&mut self, owner: Address, stake: Amount)
        requires
            old(self).wf(),
        ensures
            final(self).wf(),
            final(self)@ == old(self)@.with_stake(owner, stake.value()),
    {
        self.user_stakes.set(owner, stake);
        assert(values_of(self.user_stakes@) =~= old(self)@.user_stakes.insert(owner, stake.value()));
    }

    /// Adds `amount` to what `caller` has staked and orders its delegation
    /// to `validator`.
    pub fn stake_to_validator(&mut self, caller: Address, amount: Amount, validator: PublicKey) -> (outcome:
        Result<StakeOrder, Error>)
        requires
            old(self).wf(),
            old(self)@.stake_to_validator(caller, amount.value()) is Ok ==> old(self)@.stake_of(
                caller,
            ) + amount.value() < pow2(512),
        ensures
            final(self).wf(),
            match old(self)@.stake_to_validator(caller, amount.value()) {
                Ok(next) => final(self)@ == next && outcome == Ok::<StakeOrder, Error>(
                    StakeOrder { validator, amount },
                ),
                Err(reason) => final(self)@ == old(self)@ && outcome == Err::<StakeOrder, Error>(
                    reason,
                ),
            },
    {
        let sum = stake_after_staking(self.get_user_stake(caller), amount)?;
        self.put_stake(caller, sum);
        Ok(StakeOrder { validator, amount })
    }

    /// Adds `amount` to what `caller` has staked and orders its delegation
    /// to the default validator.
    pub fn stake(&mut self, caller: Address, amount: Amount) -> (outcome: Result<StakeOrder, Error>)
        requires
            old(self).wf(),
            old(self)@.stake(caller, amount.value()) is Ok ==> old(self)@.stake_of(caller)
                + amount.value() < pow2(512),
        ensures
            final(self).wf(),
            match old(self)@.stake(caller, amount.value()) {
                Ok(next) => final(self)@ == next && outcome == Ok::<StakeOrder, Error>(
                    StakeOrder { validator: old(self)@.default_validator.unwrap(), amount },
                ),
                Err(reason) => final(self)@ == old(self)@ && outcome == Err::<StakeOrder, Error>(
                    reason,
                ),
            },
    {
        check_stake_amount(amount)?;
        let validator = require_validator(self.get_default_validator())?;
        let sum = stake_after_staking(self.get_user_stake(caller), amount)?;
        self.put_stake(caller, sum);
        Ok(StakeOrder { validator, amount })
    }

    /// Takes `amount` from what `caller` has staked and orders its
    /// undelegation from the default validator.
    pub fn unstake(&mut self, caller: Address, amount: Amount) -> (outcome: Result<
        (StakeOrder, Unstaked),
        Error,
    >)
        requires
            old(self).wf(),
        ensures
            final(self).wf(),
            match old(self)@.unstake(caller, amount.value()) {
                Ok(next) => final(self)@ == next && outcome == Ok::<(StakeOrder, Unstaked), Error>(
                    (
                        StakeOrder { validator: old(self)@.default_validator.unwrap(), amount },
                        Unstaked { owner: caller, amount },
                    ),
                ),
                Err(reason) => final(self)@ == old(self)@ && outcome == Err::<
                    (StakeOrder, Unstaked),
                    Error,
                >(reason),
            },
    {
        check_stake_amount(amount)?;
        let validator = require_validator(self.get_default_validator())?;
        let current_stake = self.get_user_stake(caller);
        let rest = stake_after_unstaking(current_stake, amount)?;
        self.put_stake(caller, rest);
        Ok((StakeOrder { validator, amount }, Unstaked { owner: caller, amount }))
    }

    /// Counts the rewards of `owner` into its stake, where `delegated` is
    /// what the staking system holds in all: a stake below `delegated`
    /// becomes `delegated`, and the record names the difference.
    pub fn compound_rewards(&mut self, owner: Address, delegated: Amount) -> (outcome: Option<
        RewardsCompounded,
    >)
        requires
            old(self).wf(),
        ensures
            final(self).wf(),
            final(self)@ == old(self)@.compound_rewards(owner, delegated.value()),
            delegated.value() <= old(self)@.stake_of(owner) ==> outcome is None,
            delegated.value() > old(self)@.stake_of(owner) ==> {
                &&& outcome matches Some(event)
                &&& event.owner == owner
                &&& event.amount.value() == delegated.value() - old(self)@.stake_of(owner)
            },
    {
        let current_stake = self.get_user_stake(owner);
        match pending_rewards(delegated, current_stake) {
            Some(rewards) => {
                self.put_stake(owner, delegated);
                Some(RewardsCompounded { owner, amount: rewards })
            },
            None => None,
        }
    }
}

} // verus!
