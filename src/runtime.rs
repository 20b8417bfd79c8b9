//! The runtime: the balances ledger and the system counter behind one API,
//! dispatch of runtime calls, and block execution.

use vstd::prelude::*;
use crate::balances;
use crate::balances::{transfer_outcome, transferred};
use crate::support::{Block, Extrinsic, Header};
use crate::system;
use crate::table::{Entries, assign, keys_unique, lemma_assign, lookup, lookup_or_zero, total};
use crate::traits::Dispatch;
use crate::types::{AccountId, Balance, BlockNumber, DispatchError, DispatchResult, RuntimeCall};

verus! {

/// An extrinsic of this runtime.
pub type RuntimeExtrinsic = Extrinsic<AccountId, RuntimeCall>;

/// A block of this runtime.
pub type RuntimeBlock = Block<Header<BlockNumber>, RuntimeExtrinsic>;

/// What dispatching `call` from `caller` returns on a ledger with entries `s`.
pub open spec fn call_outcome(s: Entries, caller: Seq<char>, call: RuntimeCall) -> DispatchResult {
    match call {
        RuntimeCall::Transfer { to, amount } => transfer_outcome(s, caller, to@, amount.0),
    }
}

/// The ledger entries after dispatching `call` from `caller`: changed as the
/// call says when it succeeds, unchanged when it fails.
pub open spec fn apply_call(s: Entries, caller: Seq<char>, call: RuntimeCall) -> Entries {
    if call_outcome(s, caller, call) is Ok {
        match call {
            RuntimeCall::Transfer { to, amount } => transferred(s, caller, to@, amount.0),
        }
    } else {
        s
    }
}

/// The ledger entries after dispatching each extrinsic of `xs` in order.
pub open spec fn apply_extrinsics(s: Entries, xs: Seq<RuntimeExtrinsic>) -> Entries
    decreases xs.len(),
{
    if xs.len() == 0 {
        s
    } else {
        apply_call(apply_extrinsics(s, xs.drop_last()), xs.last().caller@, xs.last().call)
    }
}

/// Executing a block leaves the sum of all balances as it was.
pub proof fn lemma_block_conserves_total(s: Entries, xs: Seq<RuntimeExtrinsic>)
    requires
        keys_unique(s),
    ensures
        keys_unique(apply_extrinsics(s, xs)),
        total(apply_extrinsics(s, xs)) == total(s),
    decreases xs.len(),
{
    if xs.len() > 0 {
        lemma_block_conserves_total(s, xs.drop_last());
        let p = apply_extrinsics(s, xs.drop_last());
        let x = xs.last();
        if call_outcome(p, x.caller@, x.call) is Ok {
            match x.call {
                RuntimeCall::Transfer { to, amount } => {
                    balances::lemma_transfer_effect(p, x.caller@, to@, amount.0);
                },
            }
        }
    }
}

/// In a block of three extrinsics whose middle one fails, the first and the
/// last both take effect, as if the middle one were not there.
pub proof fn lemma_failed_extrinsic_skipped(
    s: Entries,
    x0: RuntimeExtrinsic,
    x1: RuntimeExtrinsic,
    x2: RuntimeExtrinsic,
)
    requires
        call_outcome(apply_call(s, x0.caller@, x0.call), x1.caller@, x1.call) is Err,
    ensures
        apply_extrinsics(s, seq![x0, x1, x2]) == apply_call(
            apply_call(s, x0.caller@, x0.call),
            x2.caller@,
            x2.call,
        ),
{
    let a = seq![x0];
    let b = seq![x0, x1];
    let c = seq![x0, x1, x2];
    let s1 = apply_call(s, x0.caller@, x0.call);
    assert(a.drop_last() =~= Seq::<RuntimeExtrinsic>::empty());
    assert(apply_extrinsics(s, a.drop_last()) == s);
    assert(a.last() == x0);
    assert(apply_extrinsics(s, a) == s1);
    assert(b.drop_last() =~= a);
    assert(b.last() == x1);
    assert(apply_extrinsics(s, b) == s1);
    assert(c.drop_last() =~= b);
    assert(c.last() == x2);
}

/// After a run of blocks, each executed on the state the one before left,
/// the block number has grown by the number of blocks, whatever the blocks
/// held, as long as it stays within `u64`.
pub proof fn lemma_block_number_counts_blocks(
    states: Seq<Runtime>,
    blocks: Seq<Seq<RuntimeExtrinsic>>,
    results: Seq<DispatchResult>,
)
    requires
        states.len() == blocks.len() + 1,
        results.len() == blocks.len(),
        forall|k: int|
            0 <= k < blocks.len() ==> #[trigger] states[k].block_executed(
                blocks[k],
                states[k + 1],
                results[k],
            ),
        states[0].current_block() + blocks.len() <= u64::MAX,
    ensures
        states.last().current_block() == states[0].current_block() + blocks.len(),
    decreases blocks.len(),
{
    if blocks.len() > 0 {
        let n = blocks.len() - 1;
        lemma_block_number_counts_blocks(states.drop_last(), blocks.drop_last(), results.drop_last());
        assert(states.drop_last()[n as int] == states[n as int]);
        assert(states[n as int].block_executed(blocks[n as int], states[n + 1], results[n as int]));
    }
}

/// Over any run of `Runtime::transfer` calls, each made on the state the one
/// before left, the sum of all balances stays what it was.
pub proof fn lemma_transfer_run_conserves_total(
    states: Seq<Runtime>,
    calls: Seq<(Seq<char>, Seq<char>, u64)>,
    results: Seq<DispatchResult>,
)
    requires
        states.len() == calls.len() + 1,
        results.len() == calls.len(),
        forall|k: int|
            0 <= k < calls.len() ==> #[trigger] states[k].transfer_done(
                calls[k].0,
                calls[k].1,
                calls[k].2,
                states[k + 1],
                results[k],
            ),
    ensures
        total(states.last().ledger()) == total(states[0].ledger()),
    decreases calls.len(),
{
    if calls.len() > 0 {
        let n = calls.len() - 1;
        lemma_transfer_run_conserves_total(states.drop_last(), calls.drop_last(), results.drop_last());
        assert(states.drop_last()[n as int] == states[n as int]);
        assert(states[n as int].transfer_done(
            calls[n as int].0,
            calls[n as int].1,
            calls[n as int].2,
            states[n + 1],
            results[n as int],
        ));
    }
}

/// How many of the flags are set.
pub open spec fn count_set(flags: Seq<bool>) -> nat
    decreases flags.len(),
{
    if flags.len() == 0 {
        0
    } else {
        count_set(flags.drop_last()) + if flags.last() {
            1nat
        } else {
            0nat
        }
    }
}

/// Over a run of steps, each on the state the one before left, where each
/// step is either `inc_block_number` (where `increments` is set) or an
/// operation that keeps the block number (a transfer, a dispatch, a balance
/// or nonce update, whether it succeeds or fails), the block number grows by
/// the number of increments, as long as it stays within `u64`.
pub proof fn lemma_block_number_counts_increments(
    states: Seq<Runtime>,
    increments: Seq<bool>,
    results: Seq<DispatchResult>,
)
    requires
        states.len() == increments.len() + 1,
        results.len() == increments.len(),
        forall|k: int|
            0 <= k < increments.len() ==> if #[trigger] increments[k] {
                states[k].block_incremented(states[k + 1], results[k])
            } else {
                states[k + 1].current_block() == states[k].current_block()
            },
        states[0].current_block() + count_set(increments) <= u64::MAX,
    ensures
        states.last().current_block() == states[0].current_block() + count_set(increments),
    decreases increments.len(),
{
    if increments.len() > 0 {
        let n = increments.len() - 1;
        lemma_block_number_counts_increments(
            states.drop_last(),
            increments.drop_last(),
            results.drop_last(),
        );
        assert(states.drop_last()[n as int] == states[n as int]);
        assert(increments.drop_last() =~= increments.take(n as int));
        if increments[n as int] {
            assert(states[n as int].block_incremented(states[n + 1], results[n as int]));
        } else {
            assert(states[n + 1].current_block() == states[n as int].current_block());
        }
    }
}

/// The runtime: it owns the ledger and the system state.
#[derive(Debug)]
pub struct Runtime {
    balances: balances::Pallet,
    system: system::Pallet,
}

impl Runtime {
    /// The ledger's entries.
    pub closed spec fn ledger(&self) -> Entries {
        self.balances.entries()
    }

    /// The nonce table's entries.
    pub closed spec fn nonces(&self) -> Entries {
        self.system.nonces()
    }

    /// The current block number.
    pub closed spec fn current_block(&self) -> u64 {
        self.system.current_block()
    }

    /// The runtime is well formed: no account appears twice in the ledger or
    /// in the nonce table.
    pub closed spec fn wf(&self) -> bool {
        &&& self.balances.wf()
        &&& self.system.wf()
    }

    /// What `execute_block` does: `post` is the state after a block with
    /// extrinsics `xs`, `r` the result.
    pub open spec fn block_executed(&self, xs: Seq<RuntimeExtrinsic>, post: Runtime, r: DispatchResult) -> bool {
        &&& r == if self.current_block() < u64::MAX {
            Ok::<(), DispatchError>(())
        } else {
            Err(DispatchError::Overflow)
        }
        &&& r is Ok ==> post.current_block() == self.current_block() + 1
        &&& r is Ok ==> post.ledger() == apply_extrinsics(self.ledger(), xs)
        &&& r is Err ==> post.current_block() == self.current_block()
        &&& r is Err ==> post.ledger() == self.ledger()
        &&& post.nonces() == self.nonces()
    }

    /// What `transfer(caller, to, amount)` does: `post` is the state after,
    /// `r` the result.
    pub open spec fn transfer_done(
        &self,
        caller: Seq<char>,
        to: Seq<char>,
        amount: u64,
        post: Runtime,
        r: DispatchResult,
    ) -> bool {
        &&& r == transfer_outcome(self.ledger(), caller, to, amount)
        &&& post.ledger() == if r is Ok {
            transferred(self.ledger(), caller, to, amount)
        } else {
            self.ledger()
        }
        &&& total(post.ledger()) == total(self.ledger())
        &&& post.nonces() == self.nonces()
        &&& post.current_block() == self.current_block()
    }

    /// What `inc_block_number` does: `post` is the state after, `r` the result.
    pub open spec fn block_incremented(&self, post: Runtime, r: DispatchResult) -> bool {
        &&& r == if self.current_block() < u64::MAX {
            Ok::<(), DispatchError>(())
        } else {
            Err(DispatchError::Overflow)
        }
        &&& post.current_block() == if r is Ok {
            self.current_block() + 1
        } else {
            self.current_block() as int
        }
        &&& post.ledger() == self.ledger()
        &&& post.nonces() == self.nonces()
    }

    /// A well-formed runtime holds each account at most once in its nonce
    /// table.
    pub proof fn lemma_wf_nonces_unique(&self)
        requires
            self.wf(),
        ensures
            keys_unique(self.nonces()),
    {
        self.system.lemma_wf_nonces_unique();
    }

    /// A well-formed runtime holds each account at most once in its ledger.
    pub proof fn lemma_wf_ledger_unique(&self)
        requires
            self.wf(),
        ensures
            keys_unique(self.ledger()),
    {
        self.balances.lemma_wf_keys_unique();
    }

    /// Block zero, an empty ledger and no nonces.
    pub fn new() -> (r: Runtime)
        ensures
            r.wf(),
            r.current_block() == 0,
            r.ledger() == Seq::<(Seq<char>, u64)>::empty(),
            r.nonces() == Seq::<(Seq<char>, u64)>::empty(),
    {
        Runtime { balances: balances::Pallet::new(), system: system::Pallet::new() }
    }

    /// Overwrites (or creates) the balance of `who`.
    pub fn set_balance(&mut self, who: &AccountId, amount: Balance)
        requires
            old(self).wf(),
        ensures
            final(self).wf(),
            final(self).ledger() == assign(old(self).ledger(), who@, amount.0),
            lookup(final(self).ledger(), who@) == Some(amount.0),
            forall|k: Seq<char>|
                k != who@ ==> #[trigger] lookup(final(self).ledger(), k) == lookup(
                    old(self).ledger(),
                    k,
                ),
            final(self).nonces() == old(self).nonces(),
            final(self).current_block() == old(self).current_block(),
    {
        proof {
            self.lemma_wf_ledger_unique();
            lemma_assign(self.ledger(), who@, amount.0);
        }
        self.balances.set_balance(who, amount)
    }

    /// The balance of `who`, or `None` if it was never written.
    pub fn balance(&self, who: &AccountId) -> (r: Option<Balance>)
        requires
            self.wf(),
        ensures
            r == match lookup(self.ledger(), who@) {
                Some(v) => Some(Balance(v)),
                None => None,
            },
    {
        self.balances.get_balance(who)
    }

    /// Moves `amount` from `caller` to `to`; see `balances::Pallet::transfer`.
    pub fn transfer(&mut self, caller: AccountId, to: AccountId, amount: Balance) -> (r: DispatchResult)
        requires
            old(self).wf(),
        ensures
            final(self).wf(),
            old(self).transfer_done(caller@, to@, amount.0, *final(self), r),
            r is Ok && caller@ != to@ ==> lookup(final(self).ledger(), caller@) == Some(
                (lookup_or_zero(old(self).ledger(), caller@) - amount.0) as u64,
            ),
            r is Ok && caller@ != to@ ==> lookup(final(self).ledger(), to@) == Some(
                (lookup_or_zero(old(self).ledger(), to@) + amount.0) as u64,
            ),
            caller@ == to@ ==> final(self).ledger() == old(self).ledger(),
            forall|k: Seq<char>|
                k != caller@ && k != to@ ==> #[trigger] lookup(final(self).ledger(), k) == lookup(
                    old(self).ledger(),
                    k,
                ),
    {
        let ghost s = self.ledger();
        proof {
            self.lemma_wf_ledger_unique();
            if transfer_outcome(s, caller@, to@, amount.0) is Ok {
                balances::lemma_transfer_effect(s, caller@, to@, amount.0);
            }
        }
        self.balances.transfer(&caller, &to, amount)
    }

    /// The current block number.
    pub fn block_number(&self) -> (r: BlockNumber)
        ensures
            r.0 == self.current_block(),
    {
        self.system.block_number()
    }

    /// Adds one to the block number; fails, changing nothing, at `u64::MAX`.
    pub fn inc_block_number(&mut self) -> (r: DispatchResult)
        requires
            old(self).wf(),
        ensures
            final(self).wf(),
            old(self).block_incremented(*final(self), r),
    {
        self.system.increment_block_number()
    }

    /// The nonce of `who`, or `None` if it was never written.
    pub fn nonce(&self, who: &AccountId) -> (r: Option<u64>)
        requires
            self.wf(),
        ensures
            r == lookup(self.nonces(), who@),
    {
        self.system.get_nonce(who)
    }

    /// Sets the nonce of `who` to its stored value (zero when absent) plus
    /// one; fails, changing nothing, when that would pass `u64::MAX`.
    pub fn inc_nonce(&mut self, who: &AccountId) -> (r: DispatchResult)
        requires
            old(self).wf(),
        ensures
            final(self).wf(),
            r == if lookup_or_zero(old(self).nonces(), who@) < u64::MAX {
                Ok::<(), DispatchError>(())
            } else {
                Err(DispatchError::Overflow)
            },
            final(self).nonces() == if r is Ok {
                assign(
                    old(self).nonces(),
                    who@,
                    (lookup_or_zero(old(self).nonces(), who@) + 1) as u64,
                )
            } else {
                old(self).nonces()
            },
            r is Ok ==> lookup(final(self).nonces(), who@) == Some(
                (lookup_or_zero(old(self).nonces(), who@) + 1) as u64,
            ),
            forall|k: Seq<char>|
                k != who@ ==> #[trigger] lookup(final(self).nonces(), k) == lookup(
                    old(self).nonces(),
                    k,
                ),
            final(self).ledger() == old(self).ledger(),
            final(self).current_block() == old(self).current_block(),
    {
        let current = match self.system.get_nonce(who) {
            Some(n) => n,
            None => 0,
        };
        match current.checked_add(1) {
            Some(next) => {
                self.system.update_nonce(who.copied(), next);
                Ok(())
            },
            None => Err(DispatchError::Overflow),
        }
    }

    /// Executes a block: adds one to the block number, then dispatches each
    /// extrinsic in order. A failed extrinsic changes nothing and does not stop
    /// the block. Fails, changing nothing, only when the block number is at
    /// `u64::MAX`.
    pub fn execute_block(&mut self, block: RuntimeBlock) -> (r: DispatchResult)
        requires
            old(self).wf(),
        ensures
            final(self).wf(),
            old(self).block_executed(block.extrinsics@, *final(self), r),
            total(final(self).ledger()) == total(old(self).ledger()),
    {
        match self.inc_block_number() {
            Ok(()) => {},
            Err(e) => return Err(e),
        }
        let ghost s0 = self.ledger();
        let ghost bn = self.current_block();
        let ghost ns = self.nonces();
        proof {
            self.lemma_wf_ledger_unique();
        }
        let xs = &block.extrinsics;
        let n = xs.len();
        let mut i: usize = 0;
        while i < n
            invariant
                self.wf(),
                n == xs.len(),
                i <= n,
                self.current_block() == bn,
                self.nonces() == ns,
                self.ledger() == apply_extrinsics(s0, xs@.take(i as int)),
            decreases n - i,
        {
            let x = &xs[i];
            let caller = x.caller.copied();
            let call = match &x.call {
                RuntimeCall::Transfer { to, amount } => RuntimeCall::Transfer {
                    to: to.copied(),
                    amount: *amount,
                },
            };
            assert(call == x.call);
            let _ = self.dispatch(caller, call);
            proof {
                assert(xs@.take(i + 1).drop_last() =~= xs@.take(i as int));
                assert(xs@.take(i + 1).last() == xs@[i as int]);
            }
            i = i + 1;
        }
        assert(xs@.take(n as int) =~= xs@);
        proof {
            lemma_block_conserves_total(s0, xs@);
        }
        Ok(())
    }
}

impl Dispatch for Runtime {
    type Caller = AccountId;
    type Call = RuntimeCall;

    open spec fn ready(&self) -> bool {
        self.wf()
    }

    open spec fn dispatched(&self, caller: AccountId, call: RuntimeCall, post: Runtime, r: DispatchResult) -> bool {
        &&& r == call_outcome(self.ledger(), caller@, call)
        &&& post.ledger() == apply_call(self.ledger(), caller@, call)
        &&& post.nonces() == self.nonces()
        &&& post.current_block() == self.current_block()
    }

    fn dispatch(&mut self, caller: AccountId, call: RuntimeCall) -> (r: DispatchResult) {
        match call {
            RuntimeCall::Transfer { to, amount } => self.transfer(caller, to, amount),
        }
    }
}

} // verus!
