//! The errors of the adapter.

use vstd::prelude::*;

verus! {

/// What can go wrong between the execution engine and the store.
#[derive(Clone, Copy, Debug, PartialEq, Eq, Structural)]
pub enum QmdbError {
    /// The store's location cannot be used.
    InitializationError,
    /// A call came out of order: a height that is not the next one, or a call
    /// that the controller's state does not allow.
    SequenceError,
    /// The store could not commit a block.
    CommitError,
    /// The store answered with bytes that stand for no record.
    ReadError,
    /// There is no such record. This is an answer, not a failure.
    NotFound,
}

impl QmdbError {
    /// Whether the error ends the run: an unusable location or a call out of
    /// order.
    pub open spec fn spec_is_fatal(&self) -> bool {
        *self == QmdbError::InitializationError || *self == QmdbError::SequenceError
    }

    /// Whether the error ends the run.
    pub fn is_fatal(&self) -> (fatal: bool)
        ensures
            fatal == self.spec_is_fatal(),
    {
        match self {
            QmdbError::InitializationError => true,
            QmdbError::SequenceError => true,
            _ => false,
        }
    }

    /// Whether the failed call may be made again: only a failed commit.
    pub fn is_retryable(&self) -> (retryable: bool)
        ensures
            retryable == (*self == QmdbError::CommitError),
    {
        match self {
            QmdbError::CommitError => true,
            _ => false,
        }
    }

    /// Whether the error stops the block that is being executed: a read that
    /// could not be decoded.
    pub fn aborts_block(&self) -> (aborts: bool)
        ensures
            aborts == (*self == QmdbError::ReadError),
    {
        match self {
            QmdbError::ReadError => true,
            _ => false,
        }
    }
}

} // verus!
