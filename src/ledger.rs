//! The currency ledger that stakes and payments go through: each account
//! has a free (spendable) balance and a reserved (locked) balance.
use std::collections::HashMap;
use vstd::prelude::*;

verus! {

broadcast use vstd::std_specs::hash::group_hash_axioms;

/// The two balances of one account.
#[derive(Clone, Copy, Debug, PartialEq, Eq, Structural)]
pub struct AccountData {
    pub free: u128,
    pub reserved: u128,
}

/// Why a ledger operation was refused.
#[derive(Clone, Copy, Debug, PartialEq, Eq, Structural)]
pub enum BalanceError {
    /// The free balance does not cover the amount.
    InsufficientBalance,
    /// The payer would be left with less than the existential deposit.
    KeepAlive,
    /// The receiving account's total would not fit.
    Overflow,
}

/// The abstract state of a ledger: the accounts that were ever touched,
/// and the least free balance a payer must keep.
pub struct LedgerView {
    pub accounts: Map<u64, AccountData>,
    pub existential_deposit: u128,
}

impl LedgerView {
    /// Free balance of an account (zero for an account never touched).
    pub open spec fn free(self, a: u64) -> int {
        if self.accounts.contains_key(a) {
            self.accounts[a].free as int
        } else {
            0
        }
    }

    /// Reserved balance of an account (zero for an account never touched).
    pub open spec fn reserved(self, a: u64) -> int {
        if self.accounts.contains_key(a) {
            self.accounts[a].reserved as int
        } else {
            0
        }
    }

    /// Every account's total balance fits in a `u128`.
    pub open spec fn wf(self) -> bool {
        forall|a: u64| #![trigger self.free(a)] #![trigger self.reserved(a)] self.free(a) + self.reserved(a) <= u128::MAX
    }

    /// The ledger with the two balances of `a` replaced.
    pub open spec fn with_balances(self, a: u64, free: int, reserved: int) -> LedgerView {
        LedgerView {
            accounts: self.accounts.insert(a, AccountData { free: free as u128, reserved: reserved as u128 }),
            existential_deposit: self.existential_deposit,
        }
    }

    /// Replacing one account's balances by ones whose total fits keeps
    /// every total in range.
    pub proof fn lemma_with_balances_wf(self, a: u64, free: int, reserved: int)
        requires
            self.wf(),
            0 <= free,
            0 <= reserved,
            free + reserved <= u128::MAX,
        ensures
            self.with_balances(a, free, reserved).wf(),
            self.with_balances(a, free, reserved).free(a) == free,
            self.with_balances(a, free, reserved).reserved(a) == reserved,
            forall|b: u64| b != a ==> #[trigger] self.with_balances(a, free, reserved).free(b) == self.free(b),
            forall|b: u64| b != a ==> #[trigger] self.with_balances(a, free, reserved).reserved(b) == self.reserved(b),
    {
        let n = self.with_balances(a, free, reserved);
        assert forall|b: u64| #![trigger n.free(b)] #![trigger n.reserved(b)] n.free(b) + n.reserved(b) <= u128::MAX by {
            if b != a {
                assert(self.free(b) + self.reserved(b) <= u128::MAX);
            }
        }
    }

    /// After moving `amount` of `a` from free to reserved.
    pub open spec fn after_reserve(self, a: u64, amount: u128) -> LedgerView {
        self.with_balances(a, self.free(a) - amount, self.reserved(a) + amount)
    }

    /// After moving `amount` of `a` from reserved back to free.
    pub open spec fn after_unreserve(self, a: u64, amount: u128) -> LedgerView {
        self.with_balances(a, self.free(a) + amount, self.reserved(a) - amount)
    }

    /// After adding `amount` to the free balance of `a`.
    pub open spec fn after_deposit(self, a: u64, amount: u128) -> LedgerView {
        self.with_balances(a, self.free(a) + amount, self.reserved(a))
    }

    /// Why a payment of `amount` from `from` to `to` that keeps the payer
    /// alive is refused, if it is.
    pub open spec fn transfer_error(self, from: u64, to: u64, amount: u128) -> Option<BalanceError> {
        if from == to {
            None
        } else if self.free(from) < amount {
            Some(BalanceError::InsufficientBalance)
        } else if self.free(from) - amount < self.existential_deposit {
            Some(BalanceError::KeepAlive)
        } else if self.free(to) + self.reserved(to) + amount > u128::MAX {
            Some(BalanceError::Overflow)
        } else {
            None
        }
    }

    /// After a payment of `amount` from `from` to `to`.
    pub open spec fn after_transfer(self, from: u64, to: u64, amount: u128) -> LedgerView {
        if from == to {
            self
        } else {
            self.with_balances(from, self.free(from) - amount, self.reserved(from)).with_balances(
                to,
                self.free(to) + amount,
                self.reserved(to),
            )
        }
    }
}

/// An in-memory currency ledger.
pub struct Ledger {
    accounts: HashMap<u64, AccountData>,
    existential_deposit: u128,
}

impl View for Ledger {
    type V = LedgerView;

    closed spec fn view(&self) -> LedgerView {
        LedgerView { accounts: self.accounts@, existential_deposit: self.existential_deposit }
    }
}

impl Ledger {
    /// An empty ledger in which a payer must keep `existential_deposit`.
    pub fn new(existential_deposit: u128) -> (r: Ledger)
        ensures
            r@.accounts == Map::<u64, AccountData>::empty(),
            r@.existential_deposit == existential_deposit,
            r@.wf(),
    {
        Ledger { accounts: HashMap::new(), existential_deposit }
    }

    /// A copy of this ledger.
    pub fn snapshot(&self) -> (r: Ledger)
        ensures
            r@ == self@,
    {
        Ledger { accounts: self.accounts.clone(), existential_deposit: self.existential_deposit }
    }

    fn account(&self, a: u64) -> (r: AccountData)
        ensures
            r.free == self@.free(a),
            r.reserved == self@.reserved(a),
    {
        match self.accounts.get(&a) {
            Some(d) => *d,
            None => AccountData { free: 0, reserved: 0 },
        }
    }

    fn set_account(&mut self, a: u64, d: AccountData)
        requires
            old(self)@.wf(),
            d.free + d.reserved <= u128::MAX,
        ensures
            final(self)@.wf(),
            final(self)@ == old(self)@.with_balances(a, d.free as int, d.reserved as int),
    {
        proof {
            self@.lemma_with_balances_wf(a, d.free as int, d.reserved as int);
        }
        self.accounts.insert(a, d);
    }

    /// The least free balance a payer must keep.
    pub fn existential_deposit(&self) -> (r: u128)
        ensures
            r == self@.existential_deposit,
    {
        self.existential_deposit
    }

    /// The spendable balance of `a`.
    pub fn free_balance(&self, a: u64) -> (r: u128)
        ensures
            r == self@.free(a),
    {
        self.account(a).free
    }

    /// The locked balance of `a`.
    pub fn reserved_balance(&self, a: u64) -> (r: u128)
        ensures
            r == self@.reserved(a),
    {
        self.account(a).reserved
    }

    /// Credits `amount` to the free balance of `a`; refused with `Overflow`
    /// exactly when the account's total would not fit.
    pub fn deposit(&mut self, a: u64, amount: u128) -> (r: Result<(), BalanceError>)
        requires
            old(self)@.wf(),
        ensures
            final(self)@.wf(),
            r is Ok <==> old(self)@.free(a) + old(self)@.reserved(a) + amount <= u128::MAX,
            r is Ok ==> final(self)@ == old(self)@.after_deposit(a, amount),
            r is Err ==> r == Err::<(), BalanceError>(BalanceError::Overflow) && final(self)@ == old(self)@,
    {
        let d = self.account(a);
        if d.free > u128::MAX - d.reserved || amount > u128::MAX - d.reserved - d.free {
            return Err(BalanceError::Overflow);
        }
        self.set_account(a, AccountData { free: d.free + amount, reserved: d.reserved });
        Ok(())
    }

    /// Locks `amount` of the free balance of `a`; refused exactly when the
    /// free balance is smaller.
    pub fn reserve(&mut self, a: u64, amount: u128) -> (r: Result<(), BalanceError>)
        requires
            old(self)@.wf(),
        ensures
            final(self)@.wf(),
            r is Ok <==> old(self)@.free(a) >= amount,
            r is Ok ==> final(self)@ == old(self)@.after_reserve(a, amount),
            r is Err ==> r == Err::<(), BalanceError>(BalanceError::InsufficientBalance) && final(self)@ == old(self)@,
    {
        let d = self.account(a);
        if d.free < amount {
            return Err(BalanceError::InsufficientBalance);
        }
        assert(self@.free(a) + self@.reserved(a) <= u128::MAX);
        self.set_account(a, AccountData { free: d.free - amount, reserved: d.reserved + amount });
        Ok(())
    }

    /// Unlocks `amount` previously reserved for `a`.
    pub fn unreserve(&mut self, a: u64, amount: u128)
        requires
            old(self)@.wf(),
            old(self)@.reserved(a) >= amount,
        ensures
            final(self)@.wf(),
            final(self)@ == old(self)@.after_unreserve(a, amount),
    {
        let d = self.account(a);
        assert(self@.free(a) + self@.reserved(a) <= u128::MAX);
        self.set_account(a, AccountData { free: d.free + amount, reserved: d.reserved - amount });
    }

    /// Moves a stake of `amount` from `old_owner` to `new_owner`: reserves
    /// it for the new owner first, and releases it for the old one only once
    /// that succeeded; refused, with nothing changed, exactly when the new
    /// owner's free balance is smaller.
    pub fn swap_stake(&mut self, old_owner: u64, new_owner: u64, amount: u128) -> (r: Result<(), BalanceError>)
        requires
            old(self)@.wf(),
            old(self)@.reserved(old_owner) >= amount,
        ensures
            final(self)@.wf(),
            r is Ok <==> old(self)@.free(new_owner) >= amount,
            r is Ok ==> final(self)@ == old(self)@.after_reserve(new_owner, amount).after_unreserve(old_owner, amount),
            r is Err ==> r == Err::<(), BalanceError>(BalanceError::InsufficientBalance) && final(self)@ == old(self)@,
    {
        match self.reserve(new_owner, amount) {
            Ok(()) => {},
            Err(e) => {
                return Err(e);
            },
        }
        self.unreserve(old_owner, amount);
        Ok(())
    }

    /// Pays `amount` from the free balance of `from` to `to`, keeping the
    /// payer at or above the existential deposit.
    pub fn transfer(&mut self, from: u64, to: u64, amount: u128) -> (r: Result<(), BalanceError>)
        requires
            old(self)@.wf(),
        ensures
            final(self)@.wf(),
            r == match old(self)@.transfer_error(from, to, amount) {
                Some(e) => Err::<(), BalanceError>(e),
                None => Ok(()),
            },
            r is Ok ==> final(self)@ == old(self)@.after_transfer(from, to, amount),
            r is Err ==> final(self)@ == old(self)@,
    {
        if from == to {
            return Ok(());
        }
        let src = self.account(from);
        let dst = self.account(to);
        if src.free < amount {
            return Err(BalanceError::InsufficientBalance);
        }
        if src.free - amount < self.existential_deposit {
            return Err(BalanceError::KeepAlive);
        }
        if dst.free > u128::MAX - dst.reserved || amount > u128::MAX - dst.reserved - dst.free {
            return Err(BalanceError::Overflow);
        }
        assert(self@.free(from) + self@.reserved(from) <= u128::MAX);
        self.set_account(from, AccountData { free: src.free - amount, reserved: src.reserved });
        self.set_account(to, AccountData { free: dst.free + amount, reserved: dst.reserved });
        Ok(())
    }
}

} // verus!
