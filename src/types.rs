use vstd::prelude::*;

verus! {

/// An account identity. Two accounts are the same when their names are.
#[derive(Debug, Clone, Hash, PartialEq, Eq, PartialOrd, Ord)]
pub struct AccountId(pub String);

impl View for AccountId {
    type V = Seq<char>;

    open spec fn view(&self) -> Seq<char> {
        self.0@
    }
}

impl AccountId {
    /// A second account value with the same name.
    pub fn copied(&self) -> (r: AccountId)
        ensures
            r == *self,
    {
        AccountId(self.0.clone())
    }

    /// Whether two account values name the same account.
    pub fn same_as(&self, other: &AccountId) -> (r: bool)
        ensures
            r == (self@ == other@),
    {
        self.0 == other.0
    }
}

/// A block number.
#[derive(Debug, Copy, Clone, PartialEq, Eq, Structural, PartialOrd, Ord)]
pub struct BlockNumber(pub u64);

/// An amount of funds.
#[derive(Debug, Copy, Clone, PartialEq, Eq, Structural, PartialOrd, Ord)]
pub struct Balance(pub u64);

/// Why a call was rejected.
#[derive(Debug, Copy, Clone, PartialEq, Eq, Structural)]
pub enum DispatchError {
    /// The sender of a transfer has no ledger entry.
    SenderNotFound,
    /// The sender's balance is below the amount asked for.
    InsufficientBalance,
    /// A balance, nonce or block number would pass `u64::MAX`.
    Overflow,
}

impl DispatchError {
    /// A short description of the error.
    pub fn message(&self) -> (r: &'static str)
        ensures
            r@ == match self {
                DispatchError::SenderNotFound => "Sender account not found"@,
                DispatchError::InsufficientBalance => "Insufficient balance"@,
                DispatchError::Overflow => "Arithmetic overflow"@,
            },
    {
        match self {
            DispatchError::SenderNotFound => "Sender account not found",
            DispatchError::InsufficientBalance => "Insufficient balance",
            DispatchError::Overflow => "Arithmetic overflow",
        }
    }
}

/// The outcome of dispatching one call.
pub type DispatchResult = Result<(), DispatchError>;

/// The operations a runtime accepts.
#[derive(Debug, Clone)]
pub enum RuntimeCall {
    /// Move `amount` from the caller to `to`.
    Transfer { to: AccountId, amount: Balance },
}

/// The concrete binding of the runtime's types.
#[derive(Debug)]
pub struct MyRuntimeTypes;

} // verus!
