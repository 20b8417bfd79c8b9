//! A table from accounts to `u64` values, one entry per account, kept in the
//! order in which the accounts were first written.

use vstd::prelude::*;
use crate::types::AccountId;

verus! {

/// The abstract contents of a table: one (account name, value) pair per entry.
pub type Entries = Seq<(Seq<char>, u64)>;

/// No two entries share an account.
pub open spec fn keys_unique(s: Entries) -> bool {
    forall|i: int, j: int|
        0 <= i < s.len() && 0 <= j < s.len() && #[trigger] s[i].0 == #[trigger] s[j].0 ==> i == j
}

/// Some entry belongs to account `k`.
pub open spec fn has_key(s: Entries, k: Seq<char>) -> bool {
    exists|i: int| 0 <= i < s.len() && #[trigger] s[i].0 == k
}

/// The index of the entry of account `k` (meaningful when `has_key(s, k)`).
pub open spec fn position(s: Entries, k: Seq<char>) -> int {
    choose|i: int| 0 <= i < s.len() && #[trigger] s[i].0 == k
}

/// The value stored for account `k`, if any.
pub open spec fn lookup(s: Entries, k: Seq<char>) -> Option<u64> {
    if has_key(s, k) {
        Some(s[position(s, k)].1)
    } else {
        None
    }
}

/// The value stored for account `k`, or zero when it has no entry.
pub open spec fn lookup_or_zero(s: Entries, k: Seq<char>) -> u64 {
    match lookup(s, k) {
        Some(v) => v,
        None => 0,
    }
}

/// The entries after writing `v` for account `k`: its entry is overwritten in
/// place, or a new entry is appended.
pub open spec fn assign(s: Entries, k: Seq<char>, v: u64) -> Entries {
    if has_key(s, k) {
        s.update(position(s, k), (k, v))
    } else {
        s.push((k, v))
    }
}

/// The sum of all stored values.
pub open spec fn total(s: Entries) -> int
    decreases s.len(),
{
    if s.len() == 0 {
        0
    } else {
        total(s.drop_last()) + s.last().1
    }
}

/// Overwriting one entry changes the sum by the difference of the values.
proof fn lemma_total_update(s: Entries, i: int, e: (Seq<char>, u64))
    requires
        0 <= i < s.len(),
    ensures
        total(s.update(i, e)) == total(s) - s[i].1 + e.1,
    decreases s.len(),
{
    let t = s.update(i, e);
    if i == s.len() - 1 {
        assert(t.drop_last() =~= s.drop_last());
    } else {
        assert(t.drop_last() =~= s.drop_last().update(i, e));
        lemma_total_update(s.drop_last(), i, e);
    }
}

/// Writing a value keeps the accounts distinct, puts the value in place for
/// that account, leaves every other account alone, and changes the sum by the
/// difference between the new value and the old one (zero when absent).
pub proof fn lemma_assign(s: Entries, k: Seq<char>, v: u64)
    requires
        keys_unique(s),
    ensures
        keys_unique(assign(s, k, v)),
        lookup(assign(s, k, v), k) == Some(v),
        forall|k2: Seq<char>| k2 != k ==> #[trigger] lookup(assign(s, k, v), k2) == lookup(s, k2),
        total(assign(s, k, v)) == total(s) - lookup_or_zero(s, k) + v,
{
    let t = assign(s, k, v);
    if has_key(s, k) {
        let p = position(s, k);
        assert(0 <= p < s.len() && s[p].0 == k);
        lemma_total_update(s, p, (k, v));
        assert(t[p].0 == k);
    } else {
        assert(t.drop_last() =~= s);
        assert(t[s.len() as int].0 == k);
    }
    assert forall|k2: Seq<char>| k2 != k implies #[trigger] lookup(t, k2) == lookup(s, k2) by {
        if has_key(s, k2) {
            let q = position(s, k2);
            assert(t[q].0 == k2);
        }
        if has_key(t, k2) {
            let q = position(t, k2);
            assert(s[q].0 == k2);
        }
    }
}

/// A table from accounts to values.
#[derive(Debug)]
pub struct AccountTable {
    keys: Vec<AccountId>,
    values: Vec<u64>,
}

impl AccountTable {
    /// The entries of the table, in order.
    pub closed spec fn entries(&self) -> Entries {
        Seq::new(self.keys.len() as nat, |i: int| (self.keys[i]@, self.values[i]))
    }

    /// Each key has its value.
    pub closed spec fn paired(&self) -> bool {
        self.keys.len() == self.values.len()
    }

    /// The table is well formed: one value per key and no account twice.
    pub open spec fn wf(&self) -> bool {
        &&& self.paired()
        &&& keys_unique(self.entries())
    }

    /// An empty table.
    pub fn new() -> (r: AccountTable)
        ensures
            r.wf(),
            r.entries() == Seq::<(Seq<char>, u64)>::empty(),
    {
        let r = AccountTable { keys: Vec::new(), values: Vec::new() };
        assert(r.entries() =~= Seq::<(Seq<char>, u64)>::empty());
        r
    }

    /// Where the entry of `k` stands, if it has one.
    fn index_of(&self, k: &AccountId) -> (r: Option<usize>)
        requires
            self.wf(),
        ensures
            match r {
                Some(i) => i < self.keys.len() && has_key(self.entries(), k@) && position(
                    self.entries(),
                    k@,
                ) == i as int,
                None => !has_key(self.entries(), k@),
            },
    {
        let n = self.keys.len();
        let mut i: usize = 0;
        while i < n
            invariant
                self.wf(),
                n == self.keys.len(),
                i <= n,
                forall|j: int| 0 <= j < i ==> #[trigger] self.entries()[j].0 != k@,
            decreases n - i,
        {
            if self.keys[i].same_as(k) {
                proof {
                    let s = self.entries();
                    assert(s[i as int].0 == k@);
                    assert(has_key(s, k@));
                    let p = position(s, k@);
                    assert(s[p].0 == k@);
                }
                return Some(i);
            }
            assert(self.entries()[i as int].0 != k@);
            i = i + 1;
        }
        None
    }

    /// The value stored for `k`, if any.
    pub fn get(&self, k: &AccountId) -> (r: Option<u64>)
        requires
            self.wf(),
        ensures
            r == lookup(self.entries(), k@),
    {
        match self.index_of(k) {
            Some(i) => Some(self.values[i]),
            None => None,
        }
    }

    /// Writes `v` for `k`, overwriting its entry or appending a new one.
    pub fn set(&mut self, k: &AccountId, v: u64)
        requires
            old(self).wf(),
        ensures
            final(self).wf(),
            final(self).entries() == assign(old(self).entries(), k@, v),
    {
        let ghost s = self.entries();
        proof {
            lemma_assign(s, k@, v);
        }
        match self.index_of(k) {
            Some(i) => {
                self.values.set(i, v);
                assert(self.entries() =~= assign(s, k@, v));
            },
            None => {
                self.keys.push(k.copied());
                self.values.push(v);
                assert(self.entries() =~= assign(s, k@, v));
            },
        }
    }
}

} // verus!
