//! The controller of the store's life: which block is open, what was written
//! to it, and when it is committed.
//!
//! The controller decides and remembers; it does not touch the store. A
//! caller prepares the store's location and tells the controller how that
//! went, opens a block, hands it the writes, and asks for a flush. The flush
//! hands out the block's writes as one batch; the caller has the store commit
//! the batch and tells the controller how that went. Until then the writes
//! are in no store, so no reader sees a part of a block.
//!
//! ```text
//! Uninitialized --init--> Idle --start_block(h)--> Active(h) --flush--> Flushing(h)
//!                          ^                           ^                    |
//!                          |                           +----- failed -------+
//!                          +------------------- committed: next is h + 1 ---+
//! Uninitialized, Idle --close--> Closed
//! ```

use vstd::prelude::*;
use revm::database::BundleState;
use crate::bundle::{
    account_changes, changed_accounts, changes_in_address_order, changes_of,
    law_listing_order_does_not_matter, plain_accounts, PlainAccount,
};
use crate::error::QmdbError;
use crate::hashing::{hash_key, keccak256_digest};
use crate::primitives::{Address, B256, U256};
use crate::reader::SnapshotReader;
use crate::record::{AccountRecord, Bytecode};
use crate::store::{
    batch_view, commit_log, duplicate_batch, CommitFailure, Mutation, MutationView,
    VersionedStore,
};
use crate::writer::{
    account_mutation, account_mutations, block_hash_mutation, changes_view, code_mutation,
    mutation_of_block_hash, mutation_of_change, mutation_of_code, mutation_of_storage,
    sort_by_address, sort_changes, storage_mutation, AccountChange,
};

verus! {

/// Where the controller stands.
#[derive(Clone, Copy, Debug, PartialEq, Eq, Structural)]
pub enum Phase {
    /// The store's location was not prepared yet.
    Uninitialized,
    /// No block is open.
    Idle,
    /// A block is open and takes writes.
    Active,
    /// The open block's writes were handed out to be committed.
    Flushing,
    /// The controller was closed.
    Closed,
}

/// What was found when the store's location was prepared.
#[derive(Clone, Copy, Debug, PartialEq, Eq, Structural)]
pub enum LocationStatus {
    /// The location can be used.
    Usable,
    /// The location holds a store of a version that cannot be read.
    IncompatibleVersion,
    /// The location may not be read or written.
    PermissionDenied,
    /// The location holds a store whose metadata cannot be read.
    CorruptMetadata,
}

/// The state of a controller.
pub struct QmdbView {
    /// Where the controller stands.
    pub phase: Phase,
    /// The open block's height while a block is open; else the height of the
    /// block to open next.
    pub height: int,
    /// The writes made to the open block, oldest first.
    pub pending: Seq<MutationView>,
}

/// A controller whose store has the first block `start` and was not prepared
/// yet.
pub open spec fn uninitialized_at(start: int) -> QmdbView {
    QmdbView { phase: Phase::Uninitialized, height: start, pending: Seq::empty() }
}

/// A controller with block `height` open and nothing written to it.
pub open spec fn opened_at(height: int) -> QmdbView {
    QmdbView { phase: Phase::Active, height, pending: Seq::empty() }
}

/// The state after `writes` were made to the open block.
pub open spec fn written(s: QmdbView, writes: Seq<MutationView>) -> QmdbView {
    QmdbView { pending: s.pending + writes, ..s }
}

/// The state after the open block's writes were handed out.
pub open spec fn flush_begun(s: QmdbView) -> QmdbView {
    QmdbView { phase: Phase::Flushing, ..s }
}

/// The state after the store failed to commit the batch: the block is open
/// again, with its writes.
pub open spec fn flush_failed(s: QmdbView) -> QmdbView {
    QmdbView { phase: Phase::Active, ..s }
}

/// The state after the store committed the batch: no block is open and the
/// next height is expected. After the last height that there is, the
/// controller is closed.
pub open spec fn flush_done(s: QmdbView) -> QmdbView {
    if s.height < i64::MAX {
        QmdbView { phase: Phase::Idle, height: s.height + 1, pending: Seq::empty() }
    } else {
        QmdbView { phase: Phase::Closed, height: s.height, pending: Seq::empty() }
    }
}

/// The controller.
#[derive(Debug)]
pub struct Qmdb {
    phase: Phase,
    height: i64,
    pending: Vec<Mutation>,
}

impl View for Qmdb {
    type V = QmdbView;

    closed spec fn view(&self) -> QmdbView {
        QmdbView {
            phase: self.phase,
            height: self.height as int,
            pending: batch_view(self.pending@),
        }
    }
}

impl Qmdb {
    /// A controller for a store whose first block is `start_height`, before
    /// the store's location was prepared.
    pub fn uninitialized(start_height: i64) -> (q: Qmdb)
        ensures
            q@ == uninitialized_at(start_height as int),
    {
        let q = Qmdb { phase: Phase::Uninitialized, height: start_height, pending: Vec::new() };
        assert(q@.pending =~= Seq::empty());
        q
    }

    /// A controller with block `height` open, for a store whose location
    /// was prepared with the outcome `location` and that expects the height
    /// `expected` next; `None` stands for a fresh store, which takes any
    /// height as its first. This is what `uninitialized`, `init` and
    /// `start_block` give, one after the other. With a location that cannot
    /// be used construction fails with `InitializationError`; with a usable
    /// one it fails with `SequenceError` exactly when the store expects
    /// another height than the one given.
    pub fn new(height: i64, location: LocationStatus, expected: Option<i64>) -> (out: Result<
        Qmdb,
        QmdbError,
    >)
        ensures
            location != LocationStatus::Usable ==> out is Err && out->Err_0
                == QmdbError::InitializationError,
            location == LocationStatus::Usable && expected is Some && expected != Some(height)
                ==> out is Err && out->Err_0 == QmdbError::SequenceError,
            location == LocationStatus::Usable && (expected is None || expected == Some(height))
                ==> out is Ok && out->Ok_0@ == opened_at(height as int),
    {
        let start = match expected {
            Some(next) => next,
            None => height,
        };
        let mut q = Qmdb::uninitialized(start);
        match q.init(location) {
            Err(e) => {
                return Err(e);
            },
            Ok(()) => {},
        }
        match q.start_block(height) {
            Err(e) => Err(e),
            Ok(()) => Ok(q),
        }
    }

    /// Takes note of how preparing the store's location went. With a usable
    /// location the controller is ready for its first block.
    pub fn init(&mut self, location: LocationStatus) -> (out: Result<(), QmdbError>)
        ensures
            old(self)@.phase != Phase::Uninitialized ==> out == Err::<(), QmdbError>(
                QmdbError::SequenceError,
            ) && final(self)@ == old(self)@,
            old(self)@.phase == Phase::Uninitialized && location != LocationStatus::Usable ==> out
                == Err::<(), QmdbError>(QmdbError::InitializationError) && final(self)@ == old(
                self,
            )@,
            old(self)@.phase == Phase::Uninitialized && location == LocationStatus::Usable ==> out
                == Ok::<(), QmdbError>(()) && final(self)@ == (QmdbView {
                phase: Phase::Idle,
                ..old(self)@
            }),
    {
        match self.phase {
            Phase::Uninitialized => {},
            _ => {
                return Err(QmdbError::SequenceError);
            },
        }
        match location {
            LocationStatus::Usable => {
                self.phase = Phase::Idle;
                Ok(())
            },
            _ => Err(QmdbError::InitializationError),
        }
    }

    /// Opens block `height`. It has to be the height that is expected next:
    /// the store's first height, or the one after the last flushed block.
    pub fn start_block(&mut self, height: i64) -> (out: Result<(), QmdbError>)
        ensures
            old(self)@.phase == Phase::Idle && old(self)@.height == height ==> out == Ok::<
                (),
                QmdbError,
            >(()) && final(self)@ == opened_at(height as int),
            !(old(self)@.phase == Phase::Idle && old(self)@.height == height) ==> out == Err::<
                (),
                QmdbError,
            >(QmdbError::SequenceError) && final(self)@ == old(self)@,
    {
        match self.phase {
            Phase::Idle => {},
            _ => {
                return Err(QmdbError::SequenceError);
            },
        }
        if height != self.height {
            return Err(QmdbError::SequenceError);
        }
        self.phase = Phase::Active;
        self.pending = Vec::new();
        assert(self@.pending =~= Seq::empty());
        Ok(())
    }

    /// Where the controller stands.
    pub fn phase(&self) -> (p: Phase)
        ensures
            p == self@.phase,
    {
        self.phase
    }

    /// The open block's height while a block is open; else the height of the
    /// block to open next.
    pub fn height(&self) -> (h: i64)
        ensures
            h == self@.height,
    {
        self.height
    }

    /// Number of writes made to the open block.
    pub fn pending_len(&self) -> (n: usize)
        ensures
            n == self@.pending.len(),
    {
        self.pending.len()
    }

    /// A reader pinned to the height of the open block. There is none while
    /// no block is open.
    pub fn get_shared_reader(&self) -> (out: Result<SnapshotReader, QmdbError>)
        ensures
            match out {
                Ok(reader) => (self@.phase == Phase::Active || self@.phase == Phase::Flushing)
                    && reader.spec_height() == self@.height,
                Err(e) => e == QmdbError::SequenceError && self@.phase != Phase::Active
                    && self@.phase != Phase::Flushing,
            },
    {
        match self.phase {
            Phase::Active => Ok(SnapshotReader::at(self.height)),
            Phase::Flushing => Ok(SnapshotReader::at(self.height)),
            _ => Err(QmdbError::SequenceError),
        }
    }

    /// Adds one write to the open block.
    fn push_write(&mut self, m: Mutation)
        requires
            old(self)@.phase == Phase::Active,
        ensures
            final(self)@ == written(old(self)@, seq![m@]),
    {
        self.pending.push(m);
        assert(self@.pending =~= old(self)@.pending + seq![m@]);
    }

    /// Writes the account at `address` to the open block: its record, or
    /// `None` to delete it.
    pub fn write_account(&mut self, address: Address, info: Option<AccountRecord>) -> (out: Result<
        (),
        QmdbError,
    >)
        ensures
            old(self)@.phase == Phase::Active ==> out == Ok::<(), QmdbError>(()) && final(self)@
                == written(
                old(self)@,
                seq![account_mutation((AccountChange { address, info })@)],
            ),
            old(self)@.phase != Phase::Active ==> out == Err::<(), QmdbError>(
                QmdbError::SequenceError,
            ) && final(self)@ == old(self)@,
    {
        match self.phase {
            Phase::Active => {},
            _ => {
                return Err(QmdbError::SequenceError);
            },
        }
        let change = AccountChange { address, info };
        self.push_write(mutation_of_change(&change));
        Ok(())
    }

    /// Writes the accounts to the open block, in the order given.
    pub fn write_accounts(&mut self, changes: &Vec<AccountChange>) -> (out: Result<(), QmdbError>)
        ensures
            old(self)@.phase == Phase::Active ==> out == Ok::<(), QmdbError>(()) && final(self)@
                == written(old(self)@, account_mutations(changes_view(changes@))),
            old(self)@.phase != Phase::Active ==> out == Err::<(), QmdbError>(
                QmdbError::SequenceError,
            ) && final(self)@ == old(self)@,
    {
        match self.phase {
            Phase::Active => {},
            _ => {
                return Err(QmdbError::SequenceError);
            },
        }
        let n: usize = changes.len();
        let ghost all = account_mutations(changes_view(changes@));
        let mut i: usize = 0;
        assert(self@ == written(old(self)@, all.subrange(0, 0))) by {
            assert(old(self)@.pending + all.subrange(0, 0) =~= old(self)@.pending);
        }
        while i < n
            invariant
                n == changes@.len(),
                all == account_mutations(changes_view(changes@)),
                i <= n,
                old(self)@.phase == Phase::Active,
                self@ == written(old(self)@, all.subrange(0, i as int)),
            decreases n - i,
        {
            let m = mutation_of_change(&changes[i]);
            self.push_write(m);
            i = i + 1;
            proof {
                assert(all.subrange(0, i as int) =~= all.subrange(0, i - 1).push(m@));
                assert(old(self)@.pending + all.subrange(0, i - 1) + seq![m@] =~= old(
                    self,
                )@.pending + all.subrange(0, i as int));
            }
        }
        assert(all.subrange(0, n as int) =~= all);
        Ok(())
    }

    /// Writes the changed accounts of `bundle` to the open block, in the
    /// order of their addresses: a record for each account that the bundle
    /// holds with one, a deletion for each that it holds without.
    pub fn write_state(&mut self, bundle: &BundleState) -> (out: Result<(), QmdbError>)
        ensures
            old(self)@.phase == Phase::Active ==> out == Ok::<(), QmdbError>(()) && final(self)@
                == written(
                old(self)@,
                account_mutations(changes_in_address_order(changed_accounts(*bundle))),
            ),
            old(self)@.phase != Phase::Active ==> out == Err::<(), QmdbError>(
                QmdbError::SequenceError,
            ) && final(self)@ == old(self)@,
    {
        match self.phase {
            Phase::Active => {},
            _ => {
                return Err(QmdbError::SequenceError);
            },
        }
        let accounts = plain_accounts(bundle);
        proof {
            law_listing_order_does_not_matter(accounts@, changed_accounts(*bundle));
        }
        self.write_plain_accounts(&accounts)
    }

    /// Writes the changes of `accounts` to the open block, in the order of
    /// their addresses.
    pub fn write_plain_accounts(&mut self, accounts: &Vec<PlainAccount>) -> (out: Result<
        (),
        QmdbError,
    >)
        ensures
            old(self)@.phase == Phase::Active ==> out == Ok::<(), QmdbError>(()) && final(self)@
                == written(
                old(self)@,
                account_mutations(sort_by_address(changes_of(accounts@))),
            ),
            old(self)@.phase != Phase::Active ==> out == Err::<(), QmdbError>(
                QmdbError::SequenceError,
            ) && final(self)@ == old(self)@,
    {
        let changes = account_changes(accounts);
        let sorted = sort_changes(&changes);
        self.write_accounts(&sorted)
    }

    /// Writes `value` to slot `index` of the account at `address`.
    pub fn write_storage(&mut self, address: Address, index: U256, value: U256) -> (out: Result<
        (),
        QmdbError,
    >)
        ensures
            old(self)@.phase == Phase::Active ==> out == Ok::<(), QmdbError>(()) && final(self)@
                == written(old(self)@, seq![storage_mutation(address@, index@, value@)]),
            old(self)@.phase != Phase::Active ==> out == Err::<(), QmdbError>(
                QmdbError::SequenceError,
            ) && final(self)@ == old(self)@,
    {
        match self.phase {
            Phase::Active => {},
            _ => {
                return Err(QmdbError::SequenceError);
            },
        }
        self.push_write(mutation_of_storage(&address, &index, &value));
        Ok(())
    }

    /// Writes `code` under its code hash, the digest of the code, and
    /// returns that hash.
    pub fn write_code(&mut self, code: &Bytecode) -> (out: Result<B256, QmdbError>)
        ensures
            old(self)@.phase == Phase::Active ==> out is Ok && out->Ok_0@ == keccak256_digest(
                code@,
            ) && final(self)@ == written(old(self)@, seq![code_mutation(code@)]),
            old(self)@.phase != Phase::Active ==> out == Err::<B256, QmdbError>(
                QmdbError::SequenceError,
            ) && final(self)@ == old(self)@,
    {
        match self.phase {
            Phase::Active => {},
            _ => {
                return Err(QmdbError::SequenceError);
            },
        }
        let code_hash = hash_key(code.as_bytes());
        self.push_write(mutation_of_code(code));
        Ok(code_hash)
    }

    /// Writes `hash` as the hash of block `number`.
    pub fn write_block_hash(&mut self, number: u64, hash: B256) -> (out: Result<(), QmdbError>)
        ensures
            old(self)@.phase == Phase::Active ==> out == Ok::<(), QmdbError>(()) && final(self)@
                == written(old(self)@, seq![block_hash_mutation(number, hash@)]),
            old(self)@.phase != Phase::Active ==> out == Err::<(), QmdbError>(
                QmdbError::SequenceError,
            ) && final(self)@ == old(self)@,
    {
        match self.phase {
            Phase::Active => {},
            _ => {
                return Err(QmdbError::SequenceError);
            },
        }
        self.push_write(mutation_of_block_hash(number, &hash));
        Ok(())
    }

    /// Hands out the writes of the open block as the batch that the store
    /// has to commit at the block's height. The controller waits for
    /// `complete_flush`.
    pub fn flush(&mut self) -> (out: Result<Vec<Mutation>, QmdbError>)
        ensures
            match out {
                Ok(batch) => {
                    &&& old(self)@.phase == Phase::Active
                    &&& batch_view(batch@) == old(self)@.pending
                    &&& final(self)@ == flush_begun(old(self)@)
                },
                Err(e) => {
                    &&& e == QmdbError::SequenceError
                    &&& old(self)@.phase != Phase::Active
                    &&& final(self)@ == old(self)@
                },
            },
    {
        match self.phase {
            Phase::Active => {},
            _ => {
                return Err(QmdbError::SequenceError);
            },
        }
        let batch = duplicate_batch(&self.pending);
        self.phase = Phase::Flushing;
        Ok(batch)
    }

    /// Takes note of how the store's commit of the batch went. After a
    /// commit the block is closed and its height is returned. After a
    /// failure the block is open again as it was before `flush`, and the
    /// flush can be tried again.
    pub fn complete_flush(&mut self, outcome: Result<(), CommitFailure>) -> (out: Result<
        i64,
        QmdbError,
    >)
        ensures
            old(self)@.phase != Phase::Flushing ==> out == Err::<i64, QmdbError>(
                QmdbError::SequenceError,
            ) && final(self)@ == old(self)@,
            old(self)@.phase == Phase::Flushing && outcome is Err ==> out == Err::<i64, QmdbError>(
                QmdbError::CommitError,
            ) && final(self)@ == flush_failed(old(self)@),
            old(self)@.phase == Phase::Flushing && outcome is Ok ==> out == Ok::<i64, QmdbError>(
                old(self)@.height as i64,
            ) && final(self)@ == flush_done(old(self)@),
    {
        match self.phase {
            Phase::Flushing => {},
            _ => {
                return Err(QmdbError::SequenceError);
            },
        }
        match outcome {
            Err(_) => {
                self.phase = Phase::Active;
                Err(QmdbError::CommitError)
            },
            Ok(()) => {
                let flushed = self.height;
                self.pending = Vec::new();
                if self.height < i64::MAX {
                    self.height = self.height + 1;
                    self.phase = Phase::Idle;
                } else {
                    self.phase = Phase::Closed;
                }
                assert(self@.pending =~= Seq::empty());
                Ok(flushed)
            },
        }
    }

    /// Flushes the open block into `store`: hands the block's writes to the
    /// store to be committed at the block's height, and takes note of how
    /// that went. The store refuses the commit exactly when the height is not
    /// above that of its last commit; then the block is open again as it was,
    /// and the store is as it was.
    pub fn flush_to(&mut self, store: &mut VersionedStore) -> (out: Result<i64, QmdbError>)
        requires
            old(store).wf(),
        ensures
            final(store).wf(),
            old(self)@.phase != Phase::Active ==> {
                &&& out == Err::<i64, QmdbError>(QmdbError::SequenceError)
                &&& final(self)@ == old(self)@
                &&& final(store).log() == old(store).log()
                &&& final(store).committed() == old(store).committed()
            },
            old(self)@.phase == Phase::Active && (old(store).committed() is None || old(
                store,
            ).committed().unwrap() < old(self)@.height) ==> {
                &&& out == Ok::<i64, QmdbError>(old(self)@.height as i64)
                &&& final(self)@ == flush_done(flush_begun(old(self)@))
                &&& final(store).log() == commit_log(
                    old(store).log(),
                    old(self)@.height,
                    old(self)@.pending,
                )
                &&& final(store).committed() == Some(old(self)@.height)
            },
            old(self)@.phase == Phase::Active && old(store).committed() is Some && old(
                store,
            ).committed().unwrap() >= old(self)@.height ==> {
                &&& out == Err::<i64, QmdbError>(QmdbError::CommitError)
                &&& final(self)@ == old(self)@
                &&& final(store).log() == old(store).log()
                &&& final(store).committed() == old(store).committed()
            },
    {
        let height = self.height;
        match self.flush() {
            Err(e) => Err(e),
            Ok(batch) => {
                let outcome = store.commit(height, &batch);
                self.complete_flush(outcome)
            },
        }
    }

    /// Closes the controller. A controller with an open block is not
    /// closed: its writes would be lost.
    pub fn close(&mut self) -> (out: Result<(), QmdbError>)
        ensures
            old(self)@.phase == Phase::Idle || old(self)@.phase == Phase::Uninitialized ==> out
                == Ok::<(), QmdbError>(()) && final(self)@ == (QmdbView {
                phase: Phase::Closed,
                ..old(self)@
            }),
            !(old(self)@.phase == Phase::Idle || old(self)@.phase == Phase::Uninitialized) ==> out
                == Err::<(), QmdbError>(QmdbError::SequenceError) && final(self)@ == old(self)@,
    {
        match self.phase {
            Phase::Idle => {
                self.phase = Phase::Closed;
                Ok(())
            },
            Phase::Uninitialized => {
                self.phase = Phase::Closed;
                Ok(())
            },
            _ => Err(QmdbError::SequenceError),
        }
    }
}

} // verus!
