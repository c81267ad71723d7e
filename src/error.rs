use vstd::prelude::*;

verus! {

/// The ways an operation of this library can fail.
#[derive(Debug, Clone, Copy, PartialEq, Eq)]
pub enum KvError {
    /// The bucket name was not declared in the store's configuration.
    InvalidBucket,
    /// A write was attempted on a readonly store or a read-only transaction.
    ReadOnly,
    /// The key is not in the bucket.
    NotFound,
    /// The transaction was already committed or aborted.
    TransactionState,
    /// The stored bytes are not a valid encoding of the requested type.
    EncodingFailure,
    /// The path is already open with a configuration that conflicts.
    ManagerConflict,
    /// A lock that the operation needs is held elsewhere: the store's
    /// writer lock by an open write transaction (in this thread or another),
    /// or a handle's lock in a conflicting mode. The caller may retry.
    Busy,
    /// A holder of a store's lock panicked while holding it.
    Poisoned,
    /// The storage engine reported a failure.
    Lmdb(lmdb::Error),
}

} // verus!
