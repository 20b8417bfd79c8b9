//! The shapes of blocks and of the extrinsics they carry.

use vstd::prelude::*;

verus! {

/// A block header; it holds the block's number.
#[derive(Debug, Clone)]
pub struct Header<BlockNumber> {
    pub block_number: BlockNumber,
}

/// One call made by one caller.
#[derive(Debug, Clone)]
pub struct Extrinsic<Caller, Call> {
    pub caller: Caller,
    pub call: Call,
}

/// A block: a header and extrinsics, applied in order.
#[derive(Debug, Clone)]
pub struct Block<Header, Extrinsic> {
    pub header: Header,
    pub extrinsics: Vec<Extrinsic>,
}

} // verus!
