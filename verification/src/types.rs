//! Plain data carried between the maintainers and their collaborators.
//!
//! A chain position is identified by a `u64` hash, a transaction by the
//! `u64` hash the queue assigns it. Time is measured in milliseconds on a
//! `u64` clock supplied by the caller.

use vstd::prelude::*;

verus! {

/// A pending transaction, as the maintainers see one: opaque content reduced
/// to its queue-assigned hash and the user-signed (as opposed to
/// protocol-inherent) predicate. The queue owns transaction content; the
/// maintainers only pass these through.
#[derive(Clone, Copy, Debug)]
pub struct Transaction {
    /// The hash the queue assigns to this transaction.
    pub hash: u64,
    /// Whether the transaction is user-signed; protocol-inherent entries
    /// are not resubmitted on retraction.
    pub is_signed: bool,
}

/// A block as locally available chain data: its identifying hash, the hash
/// of its parent, its height, and the transactions its body holds.
#[derive(Debug)]
pub struct Block {
    pub hash: u64,
    pub parent_hash: u64,
    pub number: u64,
    pub extrinsics: Vec<Transaction>,
}

/// A snapshot of the queue's occupancy.
#[derive(Clone, Copy, Debug, PartialEq, Eq, Structural)]
pub struct Status {
    /// Transactions immediately eligible for the next block.
    pub ready: usize,
    /// Transactions blocked on dependencies not yet observed.
    pub future: usize,
}

impl Status {
    /// Whether the queue holds no transaction in either lane.
    pub fn is_empty(&self) -> (r: bool)
        ensures
            r == (self.ready == 0 && self.future == 0),
    {
        self.ready == 0 && self.future == 0
    }
}

} // verus!
