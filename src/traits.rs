//! The type configuration of a runtime, and dispatch of calls.

use vstd::prelude::*;
use crate::support::{Block, Extrinsic, Header};
use crate::types::{AccountId, Balance, BlockNumber, DispatchResult, MyRuntimeTypes, RuntimeCall};

verus! {

/// The types a runtime is built from: accounts, block numbers and balances.
pub trait BlockchainTypes {
    type AccountId;
    type BlockNumber;
    type Balance;
}

/// The block-level types that go with a `BlockchainTypes` binding.
pub trait SupportTypes: BlockchainTypes {
    type Extrinsic;
    type Header;
    type Block;
}

/// Routes a call made by a caller to the logic that carries it out.
pub trait Dispatch: Sized {
    type Caller;
    type Call;

    /// The state in which calls may be dispatched.
    spec fn ready(&self) -> bool;

    /// What dispatching `call` from `caller` does: `post` is the state after,
    /// `r` the result.
    spec fn dispatched(&self, caller: Self::Caller, call: Self::Call, post: Self, r: DispatchResult) -> bool;

    /// Dispatches `call` on behalf of `caller`.
    fn dispatch(&mut self, caller: Self::Caller, call: Self::Call) -> (r: DispatchResult)
        requires
            old(self).ready(),
        ensures
            final(self).ready(),
            old(self).dispatched(caller, call, *final(self), r),
    ;
}

impl BlockchainTypes for MyRuntimeTypes {
    type AccountId = AccountId;
    type BlockNumber = BlockNumber;
    type Balance = Balance;
}

impl SupportTypes for MyRuntimeTypes {
    type Extrinsic = Extrinsic<AccountId, RuntimeCall>;
    type Header = Header<BlockNumber>;
    type Block = Block<Header<BlockNumber>, Extrinsic<AccountId, RuntimeCall>>;
}

} // verus!
