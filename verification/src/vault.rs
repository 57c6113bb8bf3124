//! The vault: custody of one balance per account.
//!
//! Tokens enter by `deposit` and leave by `withdraw`, to the account itself,
//! or by `execute_transfer`, to a recipient named by the one engine that the
//! vault trusts. An operation that succeeds returns the record of what it
//! did; the tokens that the record names are then owed to their recipient by
//! whoever holds the vault's funds.

use vstd::prelude::*;
use vstd::arithmetic::power2::pow2;
use odra_core::prelude::Address;
use crate::account_map::{AccountMap, sum_of, lemma_sum_insert, lemma_sum_bounds_each};
use crate::amount::Amount;
use crate::errors::Error;
use crate::events::{AutomationExecuted, Deposited, Withdrawn};

verus! {

/// The numbers that a map of amounts stands for.
pub open spec fn values_of(m: Map<Address, Amount>) -> Map<Address, nat> {
    m.map_values(|a: Amount| a.value())
}

/// What the vault stands for: a balance for finitely many accounts, and the
/// engine it trusts.
pub struct VaultView {
    pub balances: Map<Address, nat>,
    pub authorized_engine: Option<Address>,
}

impl VaultView {
    /// The balance of `account`: zero where none was ever written.
    pub open spec fn balance_of(self, account: Address) -> nat {
        if self.balances.contains_key(account) {
            self.balances[account]
        } else {
            0
        }
    }

    /// The tokens in custody: the sum of all balances.
    pub open spec fn total(self) -> nat {
        sum_of(self.balances)
    }

    /// The vault with `amount` more on `account`'s balance.
    pub open spec fn credit(self, account: Address, amount: nat) -> VaultView {
        VaultView { balances: self.balances.insert(account, self.balance_of(account) + amount), ..self }
    }

    /// The vault with `amount` less on `account`'s balance.
    pub open spec fn debit(self, account: Address, amount: nat) -> VaultView
        recommends
            amount <= self.balance_of(account),
    {
        VaultView {
            balances: self.balances.insert(account, (self.balance_of(account) - amount) as nat),
            ..self
        }
    }

    /// What a deposit of `amount` by `caller` leads to.
    pub open spec fn deposit(self, caller: Address, amount: nat) -> Result<VaultView, Error> {
        if amount == 0 {
            Err(Error::ZeroAmount)
        } else {
            Ok(self.credit(caller, amount))
        }
    }

    /// What a withdrawal of `amount` by `caller` leads to.
    pub open spec fn withdraw(self, caller: Address, amount: nat) -> Result<VaultView, Error> {
        if amount == 0 {
            Err(Error::ZeroAmount)
        } else if self.balance_of(caller) < amount {
            Err(Error::InsufficientBalance)
        } else {
            Ok(self.debit(caller, amount))
        }
    }

    /// Whether `caller` is the engine that the vault trusts. Nobody is
    /// while no engine is set.
    pub open spec fn trusts(self, caller: Address) -> bool {
        self.authorized_engine == Some(caller)
    }

    /// What `caller`'s request to pay `amount` out of `owner`'s balance leads
    /// to.
    pub open spec fn execute_transfer(self, caller: Address, owner: Address, amount: nat) -> Result<
        VaultView,
        Error,
    > {
        if !self.trusts(caller) {
            Err(Error::UnauthorizedExecutor)
        } else if self.balance_of(owner) < amount {
            Err(Error::InsufficientBalance)
        } else {
            Ok(self.debit(owner, amount))
        }
    }

    /// The vault with `engine` as the engine it trusts.
    pub open spec fn set_automation_engine(self, engine: Address) -> VaultView {
        VaultView { authorized_engine: Some(engine), ..self }
    }
}

/// Whether `balance` and `amount` together stay below `2^512`.
pub fn fits(balance: Amount, amount: Amount) -> (ok: bool)
    ensures
        ok == (balance.value() + amount.value() < pow2(512)),
{
    match balance.checked_add(&amount) {
        Some(sum) => {
            proof {
                sum.lemma_value_bound();
            }
            true
        },
        None => false,
    }
}

/// The balance after a deposit of `amount`, or `ZeroAmount`.
pub fn balance_after_deposit(balance: Amount, amount: Amount) -> (outcome: Result<Amount, Error>)
    requires
        amount.value() != 0 ==> balance.value() + amount.value() < pow2(512),
    ensures
        amount.value() == 0 ==> outcome == Err::<Amount, Error>(Error::ZeroAmount),
        amount.value() != 0 ==> (outcome matches Ok(new_balance) && new_balance.value()
            == balance.value() + amount.value()),
{
    if amount.is_zero() {
        return Err(Error::ZeroAmount);
    }
    Ok(balance.plus(&amount))
}

/// The balance after `amount` has left it, or `InsufficientBalance` where
/// the balance is smaller.
pub fn balance_after_debit(balance: Amount, amount: Amount) -> (outcome: Result<Amount, Error>)
    ensures
        balance.value() < amount.value() ==> outcome == Err::<Amount, Error>(
            Error::InsufficientBalance,
        ),
        balance.value() >= amount.value() ==> (outcome matches Ok(new_balance)
            && new_balance.value() == balance.value() - amount.value()),
{
    if balance.less_than(&amount) {
        return Err(Error::InsufficientBalance);
    }
    Ok(balance.minus(&amount))
}

/// The balance after a withdrawal of `amount`, or `ZeroAmount`, or
/// `InsufficientBalance` where the balance is smaller.
pub fn balance_after_withdrawal(balance: Amount, amount: Amount) -> (outcome: Result<Amount, Error>)
    ensures
        amount.value() == 0 ==> outcome == Err::<Amount, Error>(Error::ZeroAmount),
        amount.value() != 0 && balance.value() < amount.value() ==> outcome == Err::<Amount, Error>(
            Error::InsufficientBalance,
        ),
        amount.value() != 0 && balance.value() >= amount.value() ==> (outcome matches Ok(
            new_balance,
        ) && new_balance.value() == balance.value() - amount.value()),
{
    if amount.is_zero() {
        return Err(Error::ZeroAmount);
    }
    balance_after_debit(balance, amount)
}

/// Admits `caller` where it is the trusted engine, and refuses it with
/// `UnauthorizedExecutor` otherwise, also while no engine is set.
pub fn check_executor(authorized: Option<Address>, caller: Address) -> (outcome: Result<(), Error>)
    ensures
        outcome == if authorized == Some(caller) {
            Ok::<(), Error>(())
        } else {
            Err::<(), Error>(Error::UnauthorizedExecutor)
        },
{
    match authorized {
        Some(engine) => {
            if caller != engine {
                return Err(Error::UnauthorizedExecutor);
            }
        },
        None => {
            return Err(Error::UnauthorizedExecutor);
        },
    }
    Ok(())
}

/// The vault.
pub struct AutomationVault {
    /// The balance of each account that ever had one.
    balances: AccountMap<Amount>,
    /// The engine that may call `execute_transfer`.
    authorized_engine: Option<Address>,
    /// The tokens held for all accounts together.
    custody: Amount,
}

impl View for AutomationVault {
    type V = VaultView;

    closed spec fn view(&self) -> VaultView {
        VaultView {
            balances: values_of(self.balances@),
            authorized_engine: self.authorized_engine,
        }
    }
}

impl AutomationVault {
    /// The vault holds exactly the sum of its balances.
    pub closed spec fn wf(&self) -> bool {
        &&& self.balances.wf()
        &&& self.custody.value() == sum_of(values_of(self.balances@))
    }

    /// A well-formed vault holds finitely many balances, none above the
    /// total, and a total below `2^512`.
    pub proof fn lemma_bounds(&self, account: Address)
        requires
            self.wf(),
        ensures
            self@.balances.dom().finite(),
            self@.balance_of(account) <= self@.total(),
            self@.total() < pow2(512),
    {
        self.balances.lemma_finite();
        assert(values_of(self.balances@).dom() =~= self.balances@.dom());
        self.custody.lemma_value_bound();
        if self@.balances.contains_key(account) {
            lemma_sum_bounds_each(self@.balances, account);
        }
    }

    /// An empty vault that trusts `automation_engine`, if one is given.
    pub fn init(automation_engine: Option<Address>) -> (vault: AutomationVault)
        ensures
            vault.wf(),
            vault@ == (VaultView {
                balances: Map::<Address, nat>::empty(),
                authorized_engine: automation_engine,
            }),
    {
        let vault = AutomationVault {
            balances: AccountMap::new(),
            authorized_engine: automation_engine,
            custody: Amount::from_u64(0),
        };
        assert(vault@.balances =~= Map::<Address, nat>::empty());
        vault
    }

    /// The balance kept for `owner`, zero where there is none.
    pub fn get_balance(&self, owner: Address) -> (balance: Amount)
        requires
            self.wf(),
        ensures
            balance.value() == self@.balance_of(owner),
    {
        match self.balances.get(&owner) {
            Some(balance) => *balance,
            None => Amount::from_u64(0),
        }
    }

    /// The engine that the vault trusts.
    pub fn get_automation_engine(&self) -> (engine: Option<Address>)
        ensures
            engine == self@.authorized_engine,
    {
        self.authorized_engine
    }

    /// The tokens in custody.
    pub fn get_contract_balance(&self) -> (total: Amount)
        requires
            self.wf(),
        ensures
            total.value() == self@.total(),
    {
        self.custody
    }

    /// Whether a deposit of `amount` keeps the custody below `2^512`.
    pub fn has_room_for(&self, amount: Amount) -> (room: bool)
        requires
            self.wf(),
        ensures
            room == (self@.total() + amount.value() < pow2(512)),
    {
        fits(self.custody, amount)
    }

    /// Writes `balance` for `account` and `custody` for the whole.
    fn store(&mut self, account: Address, balance: Amount, custody: Amount)
        requires
            old(self).wf(),
            custody.value() + old(self)@.balance_of(account) == old(self)@.total() + balance.value(),
        ensures
            final(self).wf(),
            final(self)@ == (VaultView {
                balances: old(self)@.balances.insert(account, balance.value()),
                ..old(self)@
            }),
            final(self)@.total() == custody.value(),
    {
        proof {
            self.lemma_bounds(account);
            lemma_sum_insert(self@.balances, account, balance.value());
        }
        self.balances.set(account, balance);
        self.custody = custody;
        assert(values_of(self.balances@) =~= old(self)@.balances.insert(account, balance.value()));
    }

    /// Adds `amount` to `caller`'s balance.
    pub fn deposit(&mut self, caller: Address, amount: Amount) -> (outcome: Result<Deposited, Error>)
        requires
            old(self).wf(),
            old(self)@.total() + amount.value() < pow2(512),
        ensures
            final(self).wf(),
            match old(self)@.deposit(caller, amount.value()) {
                Ok(next) => {
                    &&& final(self)@ == next
                    &&& outcome matches Ok(event)
                    &&& event.owner == caller
                    &&& event.amount == amount
                    &&& event.new_balance.value() == next.balance_of(caller)
                },
                Err(reason) => final(self)@ == old(self)@ && outcome == Err::<Deposited, Error>(
                    reason,
                ),
            },
    {
        proof {
            self.lemma_bounds(caller);
        }
        let current_balance = self.get_balance(caller);
        let new_balance = match balance_after_deposit(current_balance, amount) {
            Ok(new_balance) => new_balance,
            Err(reason) => {
                return Err(reason);
            },
        };
        let custody = self.custody.plus(&amount);
        self.store(caller, new_balance, custody);
        Ok(Deposited { owner: caller, amount, new_balance })
    }

    /// Takes `amount` from `caller`'s balance; the tokens are owed to
    /// `caller`.
    pub fn withdraw(&mut self, caller: Address, amount: Amount) -> (outcome: Result<Withdrawn, Error>)
        requires
            old(self).wf(),
        ensures
            final(self).wf(),
            match old(self)@.withdraw(caller, amount.value()) {
                Ok(next) => {
                    &&& final(self)@ == next
                    &&& outcome matches Ok(event)
                    &&& event.owner == caller
                    &&& event.amount == amount
                    &&& event.new_balance.value() == next.balance_of(caller)
                },
                Err(reason) => final(self)@ == old(self)@ && outcome == Err::<Withdrawn, Error>(
                    reason,
                ),
            },
    {
        proof {
            self.lemma_bounds(caller);
        }
        let current_balance = self.get_balance(caller);
        let new_balance = match balance_after_withdrawal(current_balance, amount) {
            Ok(new_balance) => new_balance,
            Err(reason) => {
                return Err(reason);
            },
        };
        let custody = self.custody.minus(&amount);
        self.store(caller, new_balance, custody);
        Ok(Withdrawn { owner: caller, amount, new_balance })
    }

    /// Takes `amount` from `owner`'s balance on behalf of rule `rule_id`; the
    /// tokens are owed to `recipient`. Only the trusted engine may call this.
    /// Whether the rule exists or is due is the engine's business.
    pub fn execute_transfer(
        &mut self,
        caller: Address,
        owner: Address,
        recipient: Address,
        amount: Amount,
        rule_id: u64,
    ) -> (outcome: Result<AutomationExecuted, Error>)
        requires
            old(self).wf(),
        ensures
            final(self).wf(),
            match old(self)@.execute_transfer(caller, owner, amount.value()) {
                Ok(next) => final(self)@ == next && outcome == Ok::<AutomationExecuted, Error>(
                    AutomationExecuted { owner, rule_id, recipient, amount },
                ),
                Err(reason) => final(self)@ == old(self)@ && outcome == Err::<
                    AutomationExecuted,
                    Error,
                >(reason),
            },
    {
        proof {
            self.lemma_bounds(owner);
        }
        match check_executor(self.authorized_engine, caller) {
            Ok(()) => {},
            Err(reason) => {
                return Err(reason);
            },
        }
        let current_balance = self.get_balance(owner);
        let new_balance = match balance_after_debit(current_balance, amount) {
            Ok(new_balance) => new_balance,
            Err(reason) => {
                return Err(reason);
            },
        };
        let custody = self.custody.minus(&amount);
        self.store(owner, new_balance, custody);
        Ok(AutomationExecuted { owner, rule_id, recipient, amount })
    }

    /// Makes `engine` the engine that the vault trusts, whoever asks.
    pub fn set_automation_engine(&mut self, engine: Address)
        requires
            old(self).wf(),
        ensures
            final(self).wf(),
            final(self)@ == old(self)@.set_automation_engine(engine),
    {
        self.authorized_engine = Some(engine);
    }
}

} // verus!
