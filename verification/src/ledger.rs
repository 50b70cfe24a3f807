//! Deterministic model of the currency service.
//!
//! The engine only ever reserves, unreserves and slashes.  The model is a
//! flat list of accounts, each with a free and a reserved balance; slashed
//! funds flow into a running total standing for the imbalance handler.

use vstd::prelude::*;
use crate::arith::{sat_add, spec_sat_add};
use crate::types::{AccountId, Balance};

verus! {

/// One account's balances.
#[derive(Clone, Copy, PartialEq, Eq, Structural, Debug)]
pub struct Account {
    pub who: AccountId,
    /// Freely usable funds.
    pub free: Balance,
    /// Funds held for deposits.
    pub reserved: Balance,
}

/// The currency model.
#[derive(Debug)]
pub struct Ledger {
    pub accounts: Vec<Account>,
    /// Everything slashed so far, in the hands of the imbalance handler.
    pub total_slashed: Balance,
}

/// Position of `who` in the account list; the list never holds an account
/// twice.
pub open spec fn spec_acc_pos(accounts: Seq<Account>, who: AccountId) -> int
    decreases accounts.len(),
{
    if accounts.len() == 0 {
        -1
    } else if accounts[0].who == who {
        0
    } else {
        let r = spec_acc_pos(accounts.drop_first(), who);
        if r < 0 {
            -1
        } else {
            1 + r
        }
    }
}

/// Whether a reservation of `amount` from `who` succeeds: nothing to do for
/// zero, otherwise the account must exist and have the free funds.
pub open spec fn spec_can_reserve(accounts: Seq<Account>, who: AccountId, amount: Balance)
    -> bool {
    amount == 0 || {
        let p = spec_acc_pos(accounts, who);
        p >= 0 && accounts[p].free >= amount
    }
}

/// The account list after a successful reservation.
pub open spec fn spec_reserve(accounts: Seq<Account>, who: AccountId, amount: Balance)
    -> Seq<Account> {
    if amount == 0 {
        accounts
    } else {
        let p = spec_acc_pos(accounts, who);
        let a = accounts[p];
        accounts.update(p, Account {
            who: a.who,
            free: (a.free - amount) as u64,
            reserved: spec_sat_add(a.reserved, amount),
        })
    }
}

/// The account list after unreserving: up to `amount` moves back to free;
/// an absent account is left alone.
pub open spec fn spec_unreserve(accounts: Seq<Account>, who: AccountId, amount: Balance)
    -> Seq<Account> {
    let p = spec_acc_pos(accounts, who);
    if p < 0 {
        accounts
    } else {
        let a = accounts[p];
        let moved = vstd::math::min(a.reserved as int, amount as int) as u64;
        accounts.update(p, Account {
            who: a.who,
            free: spec_sat_add(a.free, moved),
            reserved: (a.reserved - moved) as u64,
        })
    }
}

/// How much a slash of `amount` from `who` actually takes: at most what is
/// reserved.
pub open spec fn spec_slash_amount(accounts: Seq<Account>, who: AccountId, amount: Balance)
    -> Balance {
    let p = spec_acc_pos(accounts, who);
    if p < 0 {
        0
    } else {
        vstd::math::min(accounts[p].reserved as int, amount as int) as u64
    }
}

/// The account list after a slash of reserved funds.
pub open spec fn spec_slash(accounts: Seq<Account>, who: AccountId, amount: Balance)
    -> Seq<Account> {
    let p = spec_acc_pos(accounts, who);
    if p < 0 {
        accounts
    } else {
        let a = accounts[p];
        let taken = spec_slash_amount(accounts, who, amount);
        accounts.update(p, Account {
            who: a.who,
            free: a.free,
            reserved: (a.reserved - taken) as u64,
        })
    }
}

impl View for Ledger {
    type V = Seq<Account>;

    open spec fn view(&self) -> Seq<Account> {
        self.accounts@
    }
}

impl Ledger {
    /// A ledger with no accounts and nothing slashed.
    pub fn new() -> (r: Self)
        ensures
            r@ == Seq::<Account>::empty(),
            r.total_slashed == 0,
    {
        Ledger { accounts: Vec::new(), total_slashed: 0 }
    }

    /// Open an account with `free` usable funds; nothing happens if `who`
    /// already has one.
    pub fn open_account(&mut self, who: AccountId, free: Balance)
        ensures
            final(self)@ == (if spec_acc_pos(old(self)@, who) >= 0 {
                old(self)@
            } else {
                old(self)@.push(Account { who, free, reserved: 0 })
            }),
            final(self).total_slashed == old(self).total_slashed,
    {
        if self.position(who).is_none() {
            self.accounts.push(Account { who, free, reserved: 0 });
        }
    }

    /// Find `who` in the account list.
    fn position(&self, who: AccountId) -> (r: Option<usize>)
        ensures
            r matches Option::Some(p) ==> p == spec_acc_pos(self@, who) && p < self@.len(),
            r is None ==> spec_acc_pos(self@, who) == -1,
    {
        let mut i: usize = 0;
        proof {
            assert(self@.skip(0) =~= self@);
        }
        while i < self.accounts.len()
            invariant
                0 <= i <= self@.len(),
                forall|j: int| 0 <= j < i ==> self@[j].who != who,
                spec_acc_pos(self@.skip(i as int), who) >= 0
                    ==> spec_acc_pos(self@, who) == i + spec_acc_pos(self@.skip(i as int), who),
                spec_acc_pos(self@.skip(i as int), who) < 0
                    ==> spec_acc_pos(self@, who) == -1,
            decreases self@.len() - i,
        {
            proof {
                assert(self@.skip(i as int).drop_first() =~= self@.skip(i + 1));
            }
            if self.accounts[i].who == who {
                return Option::Some(i);
            }
            i = i + 1;
        }
        Option::None
    }

    /// Reserve `amount` from `who`, failing without any change when the free
    /// funds do not cover it.
    pub fn reserve(&mut self, who: AccountId, amount: Balance) -> (r: Result<(), ()>)
        ensures
            r is Ok <==> spec_can_reserve(old(self)@, who, amount),
            r is Ok ==> final(self)@ == spec_reserve(old(self)@, who, amount),
            r is Err ==> final(self)@ == old(self)@,
            final(self).total_slashed == old(self).total_slashed,
    {
        if amount == 0 {
            return Result::Ok(());
        }
        match self.position(who) {
            Option::Some(p) => {
                let a = self.accounts[p];
                if a.free >= amount {
                    let updated = Account {
                        who: a.who,
                        free: a.free - amount,
                        reserved: sat_add(a.reserved, amount),
                    };
                    self.accounts.set(p, updated);
                    Result::Ok(())
                } else {
                    Result::Err(())
                }
            },
            Option::None => Result::Err(()),
        }
    }

    /// Move up to `amount` of `who`'s reserved funds back to free.
    pub fn unreserve(&mut self, who: AccountId, amount: Balance)
        ensures
            final(self)@ == spec_unreserve(old(self)@, who, amount),
            final(self).total_slashed == old(self).total_slashed,
    {
        match self.position(who) {
            Option::Some(p) => {
                let a = self.accounts[p];
                let moved = if a.reserved < amount { a.reserved } else { amount };
                let updated = Account {
                    who: a.who,
                    free: sat_add(a.free, moved),
                    reserved: a.reserved - moved,
                };
                self.accounts.set(p, updated);
            },
            Option::None => {},
        }
    }

    /// Take up to `amount` of `who`'s reserved funds for the imbalance
    /// handler; returns what was actually taken.
    pub fn slash_reserved(&mut self, who: AccountId, amount: Balance) -> (taken: Balance)
        ensures
            taken == spec_slash_amount(old(self)@, who, amount),
            final(self)@ == spec_slash(old(self)@, who, amount),
            final(self).total_slashed == spec_sat_add(old(self).total_slashed, taken),
    {
        match self.position(who) {
            Option::Some(p) => {
                let a = self.accounts[p];
                let taken = if a.reserved < amount { a.reserved } else { amount };
                let updated = Account { who: a.who, free: a.free, reserved: a.reserved - taken };
                self.accounts.set(p, updated);
                self.total_slashed = sat_add(self.total_slashed, taken);
                taken
            },
            Option::None => {
                self.total_slashed = sat_add(self.total_slashed, 0);
                0
            },
        }
    }

    /// Read `who`'s balances; an absent account is all zeroes.
    pub fn balance(&self, who: AccountId) -> (r: Account)
        ensures
            spec_acc_pos(self@, who) >= 0 ==> r == self@[spec_acc_pos(self@, who)],
            spec_acc_pos(self@, who) < 0 ==> r == (Account { who, free: 0, reserved: 0 }),
    {
        match self.position(who) {
            Option::Some(p) => self.accounts[p],
            Option::None => Account { who, free: 0, reserved: 0 },
        }
    }
}

} // verus!
