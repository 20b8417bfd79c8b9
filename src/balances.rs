//! The balances ledger: the funds of each account, and transfers between them.

use vstd::prelude::*;
use crate::table::{
    AccountTable, Entries, assign, keys_unique, lemma_assign, lookup, lookup_or_zero, total,
};
use crate::types::{AccountId, Balance, DispatchError, DispatchResult};

verus! {

/// What `transfer(from, to, amount)` returns on a ledger with entries `s`.
pub open spec fn transfer_outcome(s: Entries, from: Seq<char>, to: Seq<char>, amount: u64) -> DispatchResult {
    match lookup(s, from) {
        None => Err(DispatchError::SenderNotFound),
        Some(b) => if b < amount {
            Err(DispatchError::InsufficientBalance)
        } else if from != to && lookup_or_zero(s, to) + amount > u64::MAX {
            Err(DispatchError::Overflow)
        } else {
            Ok(())
        },
    }
}

/// The ledger entries after a transfer succeeds: debit the sender, then credit
/// the recipient, whose entry starts at zero when it had none.
pub open spec fn transferred(s: Entries, from: Seq<char>, to: Seq<char>, amount: u64) -> Entries {
    let s1 = assign(s, from, (lookup_or_zero(s, from) - amount) as u64);
    assign(s1, to, (lookup_or_zero(s1, to) + amount) as u64)
}

/// A successful transfer keeps the accounts distinct and the total of all
/// balances unchanged; between two accounts it moves `amount` from one to the
/// other, and touches no third account.
pub proof fn lemma_transfer_effect(s: Entries, from: Seq<char>, to: Seq<char>, amount: u64)
    requires
        keys_unique(s),
        transfer_outcome(s, from, to, amount) is Ok,
    ensures
        keys_unique(transferred(s, from, to, amount)),
        total(transferred(s, from, to, amount)) == total(s),
        from != to ==> lookup(transferred(s, from, to, amount), from) == Some(
            (lookup_or_zero(s, from) - amount) as u64,
        ),
        from != to ==> lookup(transferred(s, from, to, amount), to) == Some(
            (lookup_or_zero(s, to) + amount) as u64,
        ),
        forall|k: Seq<char>|
            k != from && k != to ==> #[trigger] lookup(transferred(s, from, to, amount), k) == lookup(
                s,
                k,
            ),
{
    let b = lookup_or_zero(s, from);
    let s1 = assign(s, from, (b - amount) as u64);
    lemma_assign(s, from, (b - amount) as u64);
    let c = lookup_or_zero(s1, to);
    lemma_assign(s1, to, (c + amount) as u64);
    let s2 = assign(s1, to, (c + amount) as u64);
    if from != to {
        assert(lookup(s1, to) == lookup(s, to));
        assert(lookup(s2, from) == lookup(s1, from));
    }
    assert forall|k: Seq<char>| k != from && k != to implies #[trigger] lookup(s2, k) == lookup(s, k) by {
        assert(lookup(s2, k) == lookup(s1, k));
        assert(lookup(s1, k) == lookup(s, k));
    }
}

/// A transfer from an account to itself, with enough funds, succeeds and
/// leaves the ledger exactly as it was.
pub proof fn lemma_self_transfer_unchanged(s: Entries, a: Seq<char>, amount: u64)
    requires
        keys_unique(s),
        lookup_or_zero(s, a) >= amount,
        lookup(s, a) is Some,
    ensures
        transfer_outcome(s, a, a, amount) is Ok,
        transferred(s, a, a, amount) == s,
{
    let b = lookup_or_zero(s, a);
    let s1 = assign(s, a, (b - amount) as u64);
    lemma_assign(s, a, (b - amount) as u64);
    let p = crate::table::position(s, a);
    assert(s[p].0 == a);
    assert(s1 == s.update(p, (a, (b - amount) as u64)));
    assert(crate::table::has_key(s1, a));
    let q = crate::table::position(s1, a);
    assert(s1[q].0 == a && s1[p].0 == a);
    assert(q == p);
    assert(transferred(s, a, a, amount) =~= s);
}

/// The ledger entries after attempting each transfer `(from, to, amount)` of
/// `ts` in order; one that fails changes nothing.
pub open spec fn apply_transfers(s: Entries, ts: Seq<(Seq<char>, Seq<char>, u64)>) -> Entries
    decreases ts.len(),
{
    if ts.len() == 0 {
        s
    } else {
        let p = apply_transfers(s, ts.drop_last());
        let t = ts.last();
        if transfer_outcome(p, t.0, t.1, t.2) is Ok {
            transferred(p, t.0, t.1, t.2)
        } else {
            p
        }
    }
}

/// Any sequence of transfers leaves the sum of all balances as it was, and no
/// account with two entries.
pub proof fn lemma_transfers_conserve_total(s: Entries, ts: Seq<(Seq<char>, Seq<char>, u64)>)
    requires
        keys_unique(s),
    ensures
        keys_unique(apply_transfers(s, ts)),
        total(apply_transfers(s, ts)) == total(s),
    decreases ts.len(),
{
    if ts.len() > 0 {
        lemma_transfers_conserve_total(s, ts.drop_last());
        let p = apply_transfers(s, ts.drop_last());
        let t = ts.last();
        if transfer_outcome(p, t.0, t.1, t.2) is Ok {
            lemma_transfer_effect(p, t.0, t.1, t.2);
        }
    }
}

/// The balances ledger.
#[derive(Debug)]
pub struct Pallet {
    balances: AccountTable,
}

impl Pallet {
    /// The ledger's entries: one (account, balance) pair per account.
    pub closed spec fn entries(&self) -> Entries {
        self.balances.entries()
    }

    /// The ledger is well formed: no account has two entries.
    pub closed spec fn wf(&self) -> bool {
        self.balances.wf()
    }

    /// A well-formed ledger holds each account at most once.
    pub proof fn lemma_wf_keys_unique(&self)
        requires
            self.wf(),
        ensures
            keys_unique(self.entries()),
    {
    }

    /// The balance of account `k`, if it has an entry.
    pub open spec fn balance_of(&self, k: Seq<char>) -> Option<u64> {
        lookup(self.entries(), k)
    }

    /// An empty ledger.
    pub fn new() -> (r: Pallet)
        ensures
            r.wf(),
            r.entries() == Seq::<(Seq<char>, u64)>::empty(),
    {
        Pallet { balances: AccountTable::new() }
    }

    /// The balance of `account`, or `None` if it was never written.
    pub fn get_balance(&self, account: &AccountId) -> (r: Option<Balance>)
        requires
            self.wf(),
        ensures
            r == match self.balance_of(account@) {
                Some(v) => Some(Balance(v)),
                None => None,
            },
    {
        match self.balances.get(account) {
            Some(v) => Some(Balance(v)),
            None => None,
        }
    }

    /// Overwrites (or creates) the balance of `who`.
    pub fn set_balance(&mut self, who: &AccountId, amount: Balance)
        requires
            old(self).wf(),
        ensures
            final(self).wf(),
            final(self).entries() == assign(old(self).entries(), who@, amount.0),
            final(self).balance_of(who@) == Some(amount.0),
            forall|k: Seq<char>|
                k != who@ ==> #[trigger] final(self).balance_of(k) == old(self).balance_of(k),
    {
        proof {
            self.lemma_wf_keys_unique();
            lemma_assign(self.entries(), who@, amount.0);
        }
        self.balances.set(who, amount.0);
    }

    /// Moves `amount` from `from` to `to`. Fails, changing nothing, when `from`
    /// has no entry, when its balance is below `amount`, or when the credit
    /// would take `to` past `u64::MAX`.
    pub fn transfer(&mut self, from: &AccountId, to: &AccountId, amount: Balance) -> (r: DispatchResult)
        requires
            old(self).wf(),
        ensures
            final(self).wf(),
            r == transfer_outcome(old(self).entries(), from@, to@, amount.0),
            r is Ok ==> final(self).entries() == transferred(old(self).entries(), from@, to@, amount.0),
            r is Err ==> final(self).entries() == old(self).entries(),
            total(final(self).entries()) == total(old(self).entries()),
            r is Ok && from@ != to@ ==> final(self).balance_of(from@) == Some(
                (lookup_or_zero(old(self).entries(), from@) - amount.0) as u64,
            ),
            r is Ok && from@ != to@ ==> final(self).balance_of(to@) == Some(
                (lookup_or_zero(old(self).entries(), to@) + amount.0) as u64,
            ),
            from@ == to@ ==> final(self).entries() == old(self).entries(),
            forall|k: Seq<char>|
                k != from@ && k != to@ ==> #[trigger] final(self).balance_of(k) == old(
                    self,
                ).balance_of(k),
    {
        let ghost s = self.entries();
        proof {
            self.lemma_wf_keys_unique();
        }
        let from_balance = match self.balances.get(from) {
            Some(b) => b,
            None => return Err(DispatchError::SenderNotFound),
        };
        if from_balance < amount.0 {
            return Err(DispatchError::InsufficientBalance);
        }
        if !from.same_as(to) {
            match self.balances.get(to) {
                Some(b) => {
                    if b > u64::MAX - amount.0 {
                        return Err(DispatchError::Overflow);
                    }
                },
                None => {},
            }
        }
        proof {
            lemma_transfer_effect(s, from@, to@, amount.0);
            if from@ == to@ {
                lemma_self_transfer_unchanged(s, from@, amount.0);
            }
            lemma_assign(s, from@, (from_balance - amount.0) as u64);
        }
        self.balances.set(from, from_balance - amount.0);
        let to_balance = match self.balances.get(to) {
            Some(b) => b,
            None => 0,
        };
        self.balances.set(to, to_balance + amount.0);
        Ok(())
    }
}

} // verus!
