//! An in-memory balance store: for each account a free and a reserved
//! balance, with reservation, release and slashing.
use vstd::prelude::*;
use std::collections::HashMap;

use crate::types::{AccountId, Balance, Error};

verus! {

broadcast use vstd::std_specs::hash::group_hash_axioms;

/// The two balances of one account.
#[derive(Clone, Copy, Debug, PartialEq, Eq, Structural)]
pub struct AccountData {
    pub free: Balance,
    pub reserved: Balance,
}

/// Free balance of `who`; an account never seen holds nothing.
pub open spec fn free_of(accounts: Map<AccountId, AccountData>, who: AccountId) -> nat {
    if accounts.contains_key(who) {
        accounts[who].free as nat
    } else {
        0
    }
}

/// Reserved balance of `who`; an account never seen holds nothing.
pub open spec fn reserved_of(accounts: Map<AccountId, AccountData>, who: AccountId) -> nat {
    if accounts.contains_key(who) {
        accounts[who].reserved as nat
    } else {
        0
    }
}

/// Every account's total (free plus reserved) fits in a balance.
pub open spec fn totals_fit(accounts: Map<AccountId, AccountData>) -> bool {
    forall|k: AccountId| #[trigger]
        accounts.contains_key(k) ==> accounts[k].free + accounts[k].reserved <= Balance::MAX
}

/// `accounts` with the free balance of `who` overwritten by `value`.
pub open spec fn with_free(accounts: Map<AccountId, AccountData>, who: AccountId, value: int) -> Map<
    AccountId,
    AccountData,
> {
    accounts.insert(
        who,
        AccountData { free: value as Balance, reserved: reserved_of(accounts, who) as Balance },
    )
}

/// `accounts` with both balances of `who` overwritten.
pub open spec fn with_balances(
    accounts: Map<AccountId, AccountData>,
    who: AccountId,
    free: int,
    reserved: int,
) -> Map<AccountId, AccountData> {
    accounts.insert(who, AccountData { free: free as Balance, reserved: reserved as Balance })
}

/// Balances per account. An account appears once a balance is first written.
pub struct Ledger {
    accounts: HashMap<AccountId, AccountData>,
}

impl View for Ledger {
    type V = Map<AccountId, AccountData>;

    closed spec fn view(&self) -> Map<AccountId, AccountData> {
        self.accounts@
    }
}

impl Ledger {
    pub fn new() -> (r: Ledger)
        ensures
            r@ == Map::<AccountId, AccountData>::empty(),
    {
        Ledger { accounts: HashMap::new() }
    }

    fn account(&self, who: AccountId) -> (r: AccountData)
        ensures
            r.free == free_of(self@, who),
            r.reserved == reserved_of(self@, who),
    {
        match self.accounts.get(&who) {
            Some(a) => *a,
            None => AccountData { free: 0, reserved: 0 },
        }
    }

    pub fn free_balance(&self, who: AccountId) -> (r: Balance)
        ensures
            r == free_of(self@, who),
    {
        self.account(who).free
    }

    pub fn reserved_balance(&self, who: AccountId) -> (r: Balance)
        ensures
            r == reserved_of(self@, who),
    {
        self.account(who).reserved
    }

    /// Overwrites the free balance of `who`, keeping its reserved balance.
    pub fn set_free_balance(&mut self, who: AccountId, value: Balance)
        requires
            value + reserved_of(old(self)@, who) <= Balance::MAX,
        ensures
            final(self)@ == with_free(old(self)@, who, value as int),
            totals_fit(old(self)@) ==> totals_fit(final(self)@),
    {
        let a = self.account(who);
        self.accounts.insert(who, AccountData { free: value, reserved: a.reserved });
    }

    /// Moves `amount` from free to reserved; fails, changing nothing, when
    /// the free balance is short.
    pub fn reserve(&mut self, who: AccountId, amount: Balance) -> (r: Result<(), Error>)
        requires
            totals_fit(old(self)@),
        ensures
            r is Ok <==> amount <= free_of(old(self)@, who),
            r is Err ==> r == Err::<(), Error>(Error::NotEnoughBalance) && final(self)@ == old(self)@,
            r is Ok && amount == 0 ==> final(self)@ == old(self)@,
            r is Ok && amount > 0 ==> final(self)@ == with_balances(
                old(self)@,
                who,
                free_of(old(self)@, who) - amount,
                reserved_of(old(self)@, who) + amount,
            ),
            totals_fit(final(self)@),
    {
        let a = self.account(who);
        if a.free < amount {
            return Err(Error::NotEnoughBalance);
        }
        if amount == 0 {
            return Ok(());
        }
        proof {
            assert(self@.contains_key(who));
        }
        self.accounts.insert(
            who,
            AccountData { free: a.free - amount, reserved: a.reserved + amount },
        );
        Ok(())
    }

    /// Moves up to `amount` from reserved to free and returns how much moved.
    pub fn unreserve(&mut self, who: AccountId, amount: Balance) -> (r: Balance)
        requires
            totals_fit(old(self)@),
        ensures
            r == if amount <= reserved_of(old(self)@, who) {
                amount as nat
            } else {
                reserved_of(old(self)@, who)
            },
            r == 0 ==> final(self)@ == old(self)@,
            r > 0 ==> final(self)@ == with_balances(
                old(self)@,
                who,
                free_of(old(self)@, who) + r,
                reserved_of(old(self)@, who) - r,
            ),
            totals_fit(final(self)@),
    {
        let a = self.account(who);
        let moved = if amount <= a.reserved {
            amount
        } else {
            a.reserved
        };
        if moved == 0 {
            return 0;
        }
        proof {
            assert(self@.contains_key(who));
        }
        self.accounts.insert(
            who,
            AccountData { free: a.free + moved, reserved: a.reserved - moved },
        );
        moved
    }

    /// Destroys up to `amount` of the holdings of `who`, free balance first,
    /// then reserved. Returns what was destroyed and what was missing.
    pub fn slash(&mut self, who: AccountId, amount: Balance) -> (r: (Balance, Balance))
        requires
            totals_fit(old(self)@),
        ensures
            ({
                let free = free_of(old(self)@, who);
                let reserved = reserved_of(old(self)@, who);
                let from_free = if amount <= free {
                    amount as nat
                } else {
                    free
                };
                let from_reserved = if amount - from_free <= reserved {
                    (amount - from_free) as nat
                } else {
                    reserved
                };
                &&& r.0 == from_free + from_reserved
                &&& r.1 == amount - r.0
                &&& r.0 == 0 ==> final(self)@ == old(self)@
                &&& r.0 > 0 ==> final(self)@ == with_balances(
                    old(self)@,
                    who,
                    free - from_free,
                    reserved - from_reserved,
                )
            }),
            totals_fit(final(self)@),
    {
        let a = self.account(who);
        let from_free = if amount <= a.free {
            amount
        } else {
            a.free
        };
        let rest = amount - from_free;
        let from_reserved = if rest <= a.reserved {
            rest
        } else {
            a.reserved
        };
        let slashed = from_free + from_reserved;
        if slashed == 0 {
            return (0, amount);
        }
        proof {
            assert(self@.contains_key(who));
        }
        self.accounts.insert(
            who,
            AccountData { free: a.free - from_free, reserved: a.reserved - from_reserved },
        );
        (slashed, amount - slashed)
    }
}

} // verus!
