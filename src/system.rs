//! The system counter: the current block number and a nonce per account.

use vstd::prelude::*;
use crate::table::{AccountTable, Entries, assign, keys_unique, lemma_assign, lookup};
use crate::types::{AccountId, BlockNumber, DispatchError, DispatchResult};

verus! {

/// The system pallet.
#[derive(Debug)]
pub struct Pallet {
    block_number: BlockNumber,
    nonce: AccountTable,
}

impl Pallet {
    /// The current block number.
    pub closed spec fn current_block(&self) -> u64 {
        self.block_number.0
    }

    /// The nonce table's entries: one (account, nonce) pair per account.
    pub closed spec fn nonces(&self) -> Entries {
        self.nonce.entries()
    }

    /// The system state is well formed.
    pub closed spec fn wf(&self) -> bool {
        self.nonce.wf()
    }

    /// A well-formed system state holds each account at most once in its
    /// nonce table.
    pub proof fn lemma_wf_nonces_unique(&self)
        requires
            self.wf(),
        ensures
            keys_unique(self.nonces()),
    {
    }

    /// Block zero, and no nonces.
    pub fn new() -> (r: Pallet)
        ensures
            r.wf(),
            r.current_block() == 0,
            r.nonces() == Seq::<(Seq<char>, u64)>::empty(),
    {
        Pallet { block_number: BlockNumber(0), nonce: AccountTable::new() }
    }

    /// The current block number.
    pub fn block_number(&self) -> (r: BlockNumber)
        ensures
            r.0 == self.current_block(),
    {
        self.block_number
    }

    /// Adds one to the block number; fails, changing nothing, at `u64::MAX`.
    pub fn increment_block_number(&mut self) -> (r: DispatchResult)
        requires
            old(self).wf(),
        ensures
            final(self).wf(),
            final(self).nonces() == old(self).nonces(),
            r == if old(self).current_block() < u64::MAX {
                Ok::<(), DispatchError>(())
            } else {
                Err(DispatchError::Overflow)
            },
            r is Ok ==> final(self).current_block() == old(self).current_block() + 1,
            r is Err ==> final(self).current_block() == old(self).current_block(),
    {
        match self.block_number.0.checked_add(1) {
            Some(n) => {
                self.block_number = BlockNumber(n);
                Ok(())
            },
            None => Err(DispatchError::Overflow),
        }
    }

    /// The nonce of `account`, or `None` if it was never written.
    pub fn get_nonce(&self, account: &AccountId) -> (r: Option<u64>)
        requires
            self.wf(),
        ensures
            r == lookup(self.nonces(), account@),
    {
        self.nonce.get(account)
    }

    /// Overwrites (or creates) the nonce of `account`.
    pub fn update_nonce(&mut self, account: AccountId, nonce: u64)
        requires
            old(self).wf(),
        ensures
            final(self).wf(),
            final(self).current_block() == old(self).current_block(),
            final(self).nonces() == assign(old(self).nonces(), account@, nonce),
            lookup(final(self).nonces(), account@) == Some(nonce),
            forall|k: Seq<char>|
                k != account@ ==> #[trigger] lookup(final(self).nonces(), k) == lookup(
                    old(self).nonces(),
                    k,
                ),
    {
        proof {
            lemma_assign(self.nonces(), account@, nonce);
        }
        self.nonce.set(&account, nonce);
    }
}

} // verus!
