//! The external ledger collaborator, modeled explicitly.
//!
//! Every balance holder is an account with a `u64` balance; the total of
//! all balances never exceeds `u64::MAX` (new value enters only through
//! [`Ledger::mint`], which enforces the bound). [`Ledger::transfer`] is
//! the atomic value-movement primitive the custody modules call: it either
//! moves the full amount or fails with [`LedgerError::InsufficientFunds`]
//! and changes nothing.

use vstd::prelude::*;

use crate::ident::Identity;

verus! {

/// One balance-holding account.
#[derive(Clone, Copy, PartialEq, Eq, Structural, Debug)]
pub struct AccountRecord {
    pub owner: Identity,
    pub balance: u64,
}

/// Failures of the ledger primitive.
#[derive(Clone, Copy, PartialEq, Eq, Structural, Debug)]
pub enum LedgerError {
    /// The source account holds less than the requested amount.
    InsufficientFunds,
    /// Minting the requested amount would push the total supply past
    /// `u64::MAX`.
    SupplyExceeded,
}

/// A finite map from identities to balances, with a tracked total supply.
pub struct Ledger {
    accounts: Vec<AccountRecord>,
    total: u64,
}

/// The balance of `id` in `s`: the balance of the first account owned by
/// `id`, or zero if there is none.
pub open spec fn bal_in(s: Seq<AccountRecord>, id: Identity) -> u64
    decreases s.len(),
{
    if s.len() == 0 {
        0u64
    } else if s[0].owner == id {
        s[0].balance
    } else {
        bal_in(s.skip(1), id)
    }
}

/// The sum of all balances in `s`.
pub open spec fn sum_bal(s: Seq<AccountRecord>) -> int
    decreases s.len(),
{
    if s.len() == 0 {
        0
    } else {
        s[0].balance + sum_bal(s.skip(1))
    }
}

/// No two accounts share an owner.
pub open spec fn owners_unique(s: Seq<AccountRecord>) -> bool {
    forall|i: int, j: int| 0 <= i < j < s.len() ==> s[i].owner != s[j].owner
}

/// Some account in `s` is owned by `id`.
pub open spec fn has_account(s: Seq<AccountRecord>, id: Identity) -> bool {
    exists|i: int| 0 <= i < s.len() && s[i].owner == id
}

proof fn lemma_sum_nonneg(s: Seq<AccountRecord>)
    ensures
        sum_bal(s) >= 0,
    decreases s.len(),
{
    if s.len() > 0 {
        lemma_sum_nonneg(s.skip(1));
    }
}

proof fn lemma_elem_le_sum(s: Seq<AccountRecord>, i: int)
    requires
        0 <= i < s.len(),
    ensures
        s[i].balance <= sum_bal(s),
    decreases s.len(),
{
    if i == 0 {
        lemma_sum_nonneg(s.skip(1));
    } else {
        lemma_elem_le_sum(s.skip(1), i - 1);
        lemma_sum_nonneg(s.skip(1));
    }
}

proof fn lemma_sum_update(s: Seq<AccountRecord>, i: int, e: AccountRecord)
    requires
        0 <= i < s.len(),
    ensures
        sum_bal(s.update(i, e)) == sum_bal(s) - s[i].balance + e.balance,
    decreases s.len(),
{
    if i == 0 {
        assert(s.update(0, e).skip(1) =~= s.skip(1));
    } else {
        lemma_sum_update(s.skip(1), i - 1, e);
        assert(s.update(i, e).skip(1) =~= s.skip(1).update(i - 1, e));
    }
}

proof fn lemma_sum_push(s: Seq<AccountRecord>, e: AccountRecord)
    ensures
        sum_bal(s.push(e)) == sum_bal(s) + e.balance,
    decreases s.len(),
{
    if s.len() == 0 {
        assert(s.push(e)[0] == e);
        assert(s.push(e).skip(1) =~= Seq::<AccountRecord>::empty());
        assert(sum_bal(s.push(e)) == e.balance + sum_bal(Seq::<AccountRecord>::empty()));
        assert(sum_bal(Seq::<AccountRecord>::empty()) == 0);
    } else {
        lemma_sum_push(s.skip(1), e);
        assert(s.push(e)[0] == s[0]);
        assert(s.push(e).skip(1) =~= s.skip(1).push(e));
        assert(sum_bal(s.push(e)) == s[0].balance + sum_bal(s.skip(1).push(e)));
        assert(sum_bal(s) == s[0].balance + sum_bal(s.skip(1)));
    }
}

/// The balance of `id` is the balance at the earliest account owned by
/// `id`.
proof fn lemma_bal_first_match(s: Seq<AccountRecord>, id: Identity, i: int)
    requires
        0 <= i < s.len(),
        s[i].owner == id,
        forall|k: int| 0 <= k < i ==> s[k].owner != id,
    ensures
        bal_in(s, id) == s[i].balance,
    decreases s.len(),
{
    if i > 0 {
        lemma_bal_first_match(s.skip(1), id, i - 1);
    }
}

proof fn lemma_bal_absent(s: Seq<AccountRecord>, id: Identity)
    requires
        !has_account(s, id),
    ensures
        bal_in(s, id) == 0,
    decreases s.len(),
{
    if s.len() > 0 {
        assert(!has_account(s.skip(1), id)) by {
            if has_account(s.skip(1), id) {
                let k = choose|k: int| 0 <= k < s.skip(1).len() && s.skip(1)[k].owner == id;
                assert(s[k + 1].owner == id);
            }
        }
        lemma_bal_absent(s.skip(1), id);
    }
}

/// With unique owners, any account owned by `id` determines the balance.
proof fn lemma_bal_at_index(s: Seq<AccountRecord>, id: Identity, i: int)
    requires
        owners_unique(s),
        0 <= i < s.len(),
        s[i].owner == id,
    ensures
        bal_in(s, id) == s[i].balance,
{
    lemma_bal_first_match(s, id, i);
}

/// Updating the account at `i` to a record with the same owner changes
/// only that owner's balance.
proof fn lemma_bal_update(s: Seq<AccountRecord>, i: int, e: AccountRecord, id: Identity)
    requires
        owners_unique(s),
        0 <= i < s.len(),
        e.owner == s[i].owner,
    ensures
        owners_unique(s.update(i, e)),
        bal_in(s.update(i, e), id) == if id == e.owner {
            e.balance
        } else {
            bal_in(s, id)
        },
{
    let t = s.update(i, e);
    assert(owners_unique(t));
    if id == e.owner {
        lemma_bal_at_index(t, id, i);
    } else {
        if has_account(s, id) {
            let j = choose|j: int| 0 <= j < s.len() && s[j].owner == id;
            lemma_bal_at_index(s, id, j);
            lemma_bal_at_index(t, id, j);
        } else {
            lemma_bal_absent(s, id);
            assert(!has_account(t, id)) by {
                if has_account(t, id) {
                    let k = choose|k: int| 0 <= k < t.len() && t[k].owner == id;
                    assert(s[k].owner == id);
                }
            }
            lemma_bal_absent(t, id);
        }
    }
}

/// Pushing an account for a fresh owner changes only that owner's
/// balance.
proof fn lemma_bal_push(s: Seq<AccountRecord>, e: AccountRecord, id: Identity)
    requires
        owners_unique(s),
        !has_account(s, e.owner),
        ensures
        owners_unique(s.push(e)),
        bal_in(s.push(e), id) == if id == e.owner {
            e.balance
        } else {
            bal_in(s, id)
        },
{
    let t = s.push(e);
    assert(owners_unique(t)) by {
        assert forall|i: int, j: int| 0 <= i < j < t.len() implies t[i].owner != t[j].owner by {
            if j == s.len() {
                assert(s[i].owner != e.owner);
            }
        }
    }
    if id == e.owner {
        lemma_bal_absent(s, id);
        lemma_bal_first_match(t, id, s.len() as int);
    } else {
        if has_account(s, id) {
            let j = choose|j: int| 0 <= j < s.len() && s[j].owner == id;
            lemma_bal_at_index(s, id, j);
            lemma_bal_at_index(t, id, j);
        } else {
            lemma_bal_absent(s, id);
            assert(!has_account(t, id)) by {
                if has_account(t, id) {
                    let k = choose|k: int| 0 <= k < t.len() && t[k].owner == id;
                    assert(k < s.len() ==> s[k].owner == id);
                }
            }
            lemma_bal_absent(t, id);
        }
    }
}

impl Ledger {
    /// The ledger's representation invariant: owners are unique and the
    /// tracked total equals the sum of all balances.
    pub closed spec fn wf(self) -> bool {
        owners_unique(self.accounts@) && sum_bal(self.accounts@) == self.total as int
    }

    /// The balance held by `id` (zero for an identity with no account).
    pub closed spec fn balance(self, id: Identity) -> u64 {
        bal_in(self.accounts@, id)
    }

    /// The total of all balances.
    pub closed spec fn supply(self) -> u64 {
        self.total
    }

    /// An empty ledger: no value anywhere.
    pub fn new() -> (r: Ledger)
        ensures
            r.wf(),
            r.supply() == 0,
            forall|id: Identity| r.balance(id) == 0,
    {
        Ledger { accounts: Vec::new(), total: 0 }
    }

    /// The index of the account owned by `id`, if one exists.
    fn find(&self, id: Identity) -> (r: Option<usize>)
        ensures
            match r {
                Some(i) => i < self.accounts@.len() && self.accounts@[i as int].owner == id
                    && forall|k: int| 0 <= k < i ==> self.accounts@[k].owner != id,
                None => !has_account(self.accounts@, id),
            },
    {
        let n = self.accounts.len();
        for i in 0..n
            invariant
                n == self.accounts@.len(),
                forall|k: int| 0 <= k < i ==> self.accounts@[k].owner != id,
        {
            if self.accounts[i].owner == id {
                return Some(i);
            }
        }
        None
    }

    /// Reads the balance held by `id`.
    pub fn balance_of(&self, id: Identity) -> (r: u64)
        ensures
            r == self.balance(id),
    {
        match self.find(id) {
            Some(i) => {
                proof {
                    lemma_bal_first_match(self.accounts@, id, i as int);
                }
                self.accounts[i].balance
            },
            None => {
                proof {
                    lemma_bal_absent(self.accounts@, id);
                }
                0
            },
        }
    }

    /// Reads the total of all balances.
    pub fn total_supply(&self) -> (r: u64)
        ensures
            r == self.supply(),
    {
        self.total
    }

    /// Brings `amount` of new value into existence on `owner`'s account.
    /// Fails, changing nothing, if that would push the total supply past
    /// `u64::MAX`.
    pub fn mint(&mut self, owner: Identity, amount: u64) -> (r: Result<(), LedgerError>)
        requires
            old(self).wf(),
        ensures
            final(self).wf(),
            r is Ok <==> old(self).supply() + amount <= u64::MAX,
            r is Err ==> *final(self) == *old(self)
                && r == Err::<(), LedgerError>(LedgerError::SupplyExceeded),
            r is Ok ==> final(self).supply() == old(self).supply() + amount
                && final(self).balance(owner) == old(self).balance(owner) + amount
                && forall|x: Identity| x != owner ==> final(self).balance(x) == old(self).balance(x),
    {
        if amount > u64::MAX - self.total {
            return Err(LedgerError::SupplyExceeded);
        }
        match self.find(owner) {
            Some(i) => {
                proof {
                    lemma_elem_le_sum(self.accounts@, i as int);
                    lemma_bal_first_match(self.accounts@, owner, i as int);
                }
                let b = self.accounts[i].balance;
                let e = AccountRecord { owner, balance: b + amount };
                proof {
                    lemma_sum_update(self.accounts@, i as int, e);
                    assert forall|x: Identity| true implies bal_in(
                        self.accounts@.update(i as int, e),
                        x,
                    ) == if x == owner {
                        e.balance
                    } else {
                        bal_in(self.accounts@, x)
                    } by {
                        lemma_bal_update(self.accounts@, i as int, e, x);
                    }
                }
                self.accounts[i] = e;
            },
            None => {
                proof {
                    lemma_bal_absent(self.accounts@, owner);
                    lemma_sum_push(self.accounts@, AccountRecord { owner, balance: amount });
                    assert forall|x: Identity| true implies bal_in(
                        self.accounts@.push(AccountRecord { owner, balance: amount }),
                        x,
                    ) == if x == owner {
                        amount
                    } else {
                        bal_in(self.accounts@, x)
                    } by {
                        lemma_bal_push(self.accounts@, AccountRecord { owner, balance: amount }, x);
                    }
                }
                self.accounts.push(AccountRecord { owner, balance: amount });
            },
        }
        self.total = self.total + amount;
        Ok(())
    }

    /// Moves `amount` from `from` to `to` atomically. Succeeds exactly
    /// when `from` holds at least `amount`; on failure nothing changes.
    /// A transfer from an account to itself leaves every balance as it
    /// was.
    pub fn transfer(&mut self, from: Identity, to: Identity, amount: u64) -> (r: Result<
        (),
        LedgerError,
    >)
        requires
            old(self).wf(),
        ensures
            final(self).wf(),
            final(self).supply() == old(self).supply(),
            r is Ok <==> amount <= old(self).balance(from),
            r is Err ==> *final(self) == *old(self)
                && r == Err::<(), LedgerError>(LedgerError::InsufficientFunds),
            r is Ok && from == to ==> *final(self) == *old(self),
            r is Ok && from != to ==> final(self).balance(from) == old(self).balance(from) - amount
                && final(self).balance(to) == old(self).balance(to) + amount
                && forall|x: Identity| x != from && x != to ==> final(self).balance(x) == old(
                self,
            ).balance(x),
    {
        let from_idx = match self.find(from) {
            Some(i) => {
                proof {
                    lemma_bal_first_match(self.accounts@, from, i as int);
                }
                i
            },
            None => {
                proof {
                    lemma_bal_absent(self.accounts@, from);
                }
                if amount == 0 {
                    return Ok(());
                }
                return Err(LedgerError::InsufficientFunds);
            },
        };
        let from_bal = self.accounts[from_idx].balance;
        if from_bal < amount {
            return Err(LedgerError::InsufficientFunds);
        }
        if from == to {
            return Ok(());
        }
        // Debit the source first: the intermediate sum bounds the credit.
        let debited = AccountRecord { owner: from, balance: from_bal - amount };
        proof {
            lemma_sum_update(self.accounts@, from_idx as int, debited);
            assert forall|x: Identity| true implies bal_in(
                self.accounts@.update(from_idx as int, debited),
                x,
            ) == if x == from {
                debited.balance
            } else {
                bal_in(self.accounts@, x)
            } by {
                lemma_bal_update(self.accounts@, from_idx as int, debited, x);
            }
        }
        self.accounts[from_idx] = debited;
        let ghost mid = self.accounts@;
        match self.find(to) {
            Some(j) => {
                proof {
                    lemma_elem_le_sum(mid, j as int);
                    lemma_bal_first_match(mid, to, j as int);
                }
                let to_bal = self.accounts[j].balance;
                let credited = AccountRecord { owner: to, balance: to_bal + amount };
                proof {
                    lemma_sum_update(mid, j as int, credited);
                    assert forall|x: Identity| true implies bal_in(
                        mid.update(j as int, credited),
                        x,
                    ) == if x == to {
                        credited.balance
                    } else {
                        bal_in(mid, x)
                    } by {
                        lemma_bal_update(mid, j as int, credited, x);
                    }
                }
                self.accounts[j] = credited;
            },
            None => {
                let entry = AccountRecord { owner: to, balance: amount };
                proof {
                    lemma_bal_absent(mid, to);
                    lemma_sum_push(mid, entry);
                    assert forall|x: Identity| true implies bal_in(mid.push(entry), x) == if x
                        == to {
                        entry.balance
                    } else {
                        bal_in(mid, x)
                    } by {
                        lemma_bal_push(mid, entry, x);
                    }
                }
                self.accounts.push(entry);
            },
        }
        Ok(())
    }
}

} // verus!
