//! A height-versioned store held in memory.
//!
//! The store is a log of entries in the order in which they were committed.
//! One commit adds the entries of one block, all at that block's height, and
//! heights only grow. An entry is never changed: a later write of the same
//! key adds a newer entry, and a deletion adds an entry without a value. A
//! lookup at height `h` is answered by the newest entry of the key that is not
//! above `h`.
//!
//! This store is the library's own and keeps nothing on disk. What the
//! library proves of writes and reads together, it proves of this store; of
//! another store it holds as far as that store answers as this one does.

use vstd::prelude::*;
use crate::bytes::{bytes_eq, copy_range};
use crate::hashing::{StoreKey, StoreKeyView};
use crate::primitives::B256;

verus! {

/// One write to the store: the record to hold under a key, or `None` to mark
/// the key as deleted.
#[derive(Clone, Debug, PartialEq, Eq)]
pub struct Mutation {
    pub key: StoreKey,
    pub value: Option<Vec<u8>>,
}

/// What a `Mutation` holds.
pub struct MutationView {
    pub key: StoreKeyView,
    pub value: Option<Seq<u8>>,
}

impl View for Mutation {
    type V = MutationView;

    open spec fn view(&self) -> MutationView {
        MutationView {
            key: self.key@,
            value: match self.value {
                Some(v) => Some(v@),
                None => None,
            },
        }
    }
}

impl Mutation {
    /// A copy of the mutation.
    pub fn duplicate(&self) -> (copy: Mutation)
        ensures
            copy@ == self@,
    {
        let key = StoreKey {
            hash: self.key.hash,
            bytes: copy_range(self.key.bytes.as_slice(), 0, self.key.bytes.len()),
        };
        let value = match &self.value {
            Some(v) => Some(copy_range(v.as_slice(), 0, v.len())),
            None => None,
        };
        proof {
            assert(self.key.bytes@.subrange(0, self.key.bytes@.len() as int) =~= self.key.bytes@);
            if self.value is Some {
                let v = self.value->0;
                assert(v@.subrange(0, v@.len() as int) =~= v@);
            }
        }
        Mutation { key, value }
    }
}

/// A copy of the batch.
pub fn duplicate_batch(batch: &Vec<Mutation>) -> (copy: Vec<Mutation>)
    ensures
        batch_view(copy@) == batch_view(batch@),
{
    let n: usize = batch.len();
    let mut copy: Vec<Mutation> = Vec::new();
    let mut i: usize = 0;
    while i < n
        invariant
            n == batch@.len(),
            i <= n,
            copy@.len() == i,
            forall|k: int| 0 <= k < i ==> copy@[k]@ == batch@[k]@,
        decreases n - i,
    {
        copy.push(batch[i].duplicate());
        i = i + 1;
    }
    assert(batch_view(copy@) =~= batch_view(batch@));
    copy
}

/// What a store that tells a new key from a known one has to do for a
/// write.
#[derive(Clone, Copy, Debug, PartialEq, Eq, Structural)]
pub enum StoreOp {
    /// Make an entry for a key that has none.
    Create,
    /// Put a new value in the place of the key's value.
    Write,
    /// Take the key's value away.
    Delete,
}

/// What to do for a write that has a value or is a deletion, to a key that
/// is present in the store or is not: a value for a key that is not there
/// creates it, a value for one that is there overwrites it, a deletion of
/// one that is there deletes it, and a deletion of one that is not there
/// asks for nothing.
pub open spec fn op_for(has_value: bool, present: bool) -> Option<StoreOp> {
    if has_value {
        if present {
            Some(StoreOp::Write)
        } else {
            Some(StoreOp::Create)
        }
    } else if present {
        Some(StoreOp::Delete)
    } else {
        None
    }
}

/// What to do for a write that has a value or is a deletion, to a key that
/// is present in the store or is not.
pub fn store_op(has_value: bool, present: bool) -> (op: Option<StoreOp>)
    ensures
        op == op_for(has_value, present),
{
    if has_value {
        if present {
            Some(StoreOp::Write)
        } else {
            Some(StoreOp::Create)
        }
    } else if present {
        Some(StoreOp::Delete)
    } else {
        None
    }
}

/// The mutations of a batch.
pub open spec fn batch_view(batch: Seq<Mutation>) -> Seq<MutationView> {
    Seq::new(batch.len(), |i: int| batch[i]@)
}

/// One committed entry of the store.
#[derive(Clone, Debug, PartialEq, Eq)]
pub struct StoreEntry {
    pub height: i64,
    pub key: StoreKey,
    pub value: Option<Vec<u8>>,
}

/// What a `StoreEntry` holds.
pub struct EntryView {
    pub height: int,
    pub key: StoreKeyView,
    pub value: Option<Seq<u8>>,
}

impl View for StoreEntry {
    type V = EntryView;

    open spec fn view(&self) -> EntryView {
        EntryView {
            height: self.height as int,
            key: self.key@,
            value: match self.value {
                Some(v) => Some(v@),
                None => None,
            },
        }
    }
}

/// The entry that committing `m` at `height` adds.
pub open spec fn entry_of(height: int, m: MutationView) -> EntryView {
    EntryView { height, key: m.key, value: m.value }
}

/// The entries that committing `batch` at `height` adds, in the batch's order.
pub open spec fn entries_of(height: int, batch: Seq<MutationView>) -> Seq<EntryView> {
    Seq::new(batch.len(), |i: int| entry_of(height, batch[i]))
}

/// The log after `batch` was committed at `height`.
pub open spec fn commit_log(log: Seq<EntryView>, height: int, batch: Seq<MutationView>) -> Seq<
    EntryView,
> {
    log + entries_of(height, batch)
}

/// The value that a lookup of `key` at `height` finds: that of the newest
/// entry of the key that is not above `height`. `None` when there is no such
/// entry, or when it marks a deletion.
pub open spec fn lookup(log: Seq<EntryView>, height: int, key: StoreKeyView) -> Option<Seq<u8>>
    decreases log.len(),
{
    if log.len() == 0 {
        None
    } else if log.last().key == key && log.last().height <= height {
        log.last().value
    } else {
        lookup(log.drop_last(), height, key)
    }
}

/// The bytes that a lookup writes into a buffer of `buf_len` bytes: the value
/// found, cut to the buffer's length; nothing when no value is found.
pub open spec fn lookup_bytes(
    log: Seq<EntryView>,
    height: int,
    key: StoreKeyView,
    buf_len: int,
) -> Seq<u8> {
    match lookup(log, height, key) {
        Some(v) => if v.len() <= buf_len {
            v
        } else {
            v.subrange(0, buf_len)
        },
        None => Seq::empty(),
    }
}

/// Heights never fall along the log, and none is above `committed`.
pub open spec fn log_ordered(log: Seq<EntryView>, committed: Option<int>) -> bool {
    &&& forall|i: int, j: int| 0 <= i <= j < log.len() ==> log[i].height <= log[j].height
    &&& forall|i: int|
        0 <= i < log.len() ==> committed is Some && #[trigger] log[i].height <= committed.unwrap()
}

/// Why a commit was refused.
#[derive(Clone, Copy, Debug, PartialEq, Eq, Structural)]
pub enum CommitFailure {
    /// The height is not above the last committed height.
    StaleHeight,
}

/// The store: its log, and the height of the last commit.
pub struct VersionedStore {
    entries: Vec<StoreEntry>,
    committed: Option<i64>,
}

impl VersionedStore {
    /// The committed entries, oldest first.
    pub closed spec fn log(&self) -> Seq<EntryView> {
        Seq::new(self.entries@.len(), |i: int| self.entries@[i]@)
    }

    /// Height of the last commit, if there was one.
    pub closed spec fn committed(&self) -> Option<int> {
        match self.committed {
            Some(h) => Some(h as int),
            None => None,
        }
    }

    /// The store's invariant.
    pub open spec fn wf(&self) -> bool {
        log_ordered(self.log(), self.committed())
    }

    /// An empty store.
    pub fn new() -> (store: VersionedStore)
        ensures
            store.wf(),
            store.log() == Seq::<EntryView>::empty(),
            store.committed() is None,
    {
        let store = VersionedStore { entries: Vec::new(), committed: None };
        assert(store.log() =~= Seq::<EntryView>::empty());
        store
    }

    /// Height of the last commit, if there was one.
    pub fn last_committed(&self) -> (h: Option<i64>)
        ensures
            match h {
                Some(x) => self.committed() == Some(x as int),
                None => self.committed() is None,
            },
    {
        self.committed
    }

    /// Number of committed entries.
    pub fn len(&self) -> (n: usize)
        ensures
            n == self.log().len(),
    {
        self.entries.len()
    }

    /// Commits `batch` at `height`, all of it or nothing. The commit is
    /// refused, and the store left as it was, exactly when `height` is not
    /// above the height of the last commit.
    pub fn commit(&mut self, height: i64, batch: &Vec<Mutation>) -> (outcome: Result<
        (),
        CommitFailure,
    >)
        requires
            old(self).wf(),
        ensures
            final(self).wf(),
            match outcome {
                Ok(()) => {
                    &&& old(self).committed() is None || old(self).committed().unwrap() < height
                    &&& final(self).log() == commit_log(
                        old(self).log(),
                        height as int,
                        batch_view(batch@),
                    )
                    &&& final(self).committed() == Some(height as int)
                },
                Err(e) => {
                    &&& e == CommitFailure::StaleHeight
                    &&& old(self).committed() is Some && old(self).committed().unwrap() >= height
                    &&& final(self).log() == old(self).log()
                    &&& final(self).committed() == old(self).committed()
                },
            },
    {
        match self.committed {
            Some(c) => {
                if height <= c {
                    return Err(CommitFailure::StaleHeight);
                }
            },
            None => {},
        }
        let n: usize = batch.len();
        let mut i: usize = 0;
        while i < n
            invariant
                n == batch@.len(),
                i <= n,
                self.committed == old(self).committed,
                old(self).wf(),
                old(self).committed() is None || old(self).committed().unwrap() < height,
                self.log() == old(self).log() + entries_of(
                    height as int,
                    batch_view(batch@),
                ).subrange(0, i as int),
            decreases n - i,
        {
            let m = &batch[i];
            let key = StoreKey {
                hash: m.key.hash,
                bytes: copy_range(m.key.bytes.as_slice(), 0, m.key.bytes.len()),
            };
            let value = match &m.value {
                Some(v) => Some(copy_range(v.as_slice(), 0, v.len())),
                None => None,
            };
            let entry = StoreEntry { height, key, value };
            proof {
                assert(m.key.bytes@.subrange(0, m.key.bytes@.len() as int) =~= m.key.bytes@);
                if m.value is Some {
                    let v = m.value->0;
                    assert(v@.subrange(0, v@.len() as int) =~= v@);
                }
                assert(entry@ == entry_of(height as int, batch@[i as int]@));
            }
            let ghost before = self.log();
            self.entries.push(entry);
            i = i + 1;
            proof {
                let added = entries_of(height as int, batch_view(batch@));
                assert(self.log() =~= before.push(entry@));
                assert(added.subrange(0, i as int) =~= added.subrange(0, i - 1).push(entry@));
                assert(self.log() =~= old(self).log() + added.subrange(0, i as int));
            }
        }
        self.committed = Some(height);
        proof {
            let added = entries_of(height as int, batch_view(batch@));
            assert(added.subrange(0, n as int) =~= added);
        }
        Ok(())
    }

    /// Looks `key` up at `height` and writes the value found to the front of
    /// `buf`, cut to the buffer's length. Returns the number of bytes
    /// written: 0 when the key has no value at that height.
    pub fn read_entry(&self, height: i64, key_hash: &B256, key: &[u8], buf: &mut Vec<u8>) -> (n:
        usize)
        ensures
            final(buf)@.len() == old(buf)@.len(),
            n <= old(buf)@.len(),
            final(buf)@.subrange(0, n as int) == lookup_bytes(
                self.log(),
                height as int,
                StoreKeyView { hash: key_hash@, bytes: key@ },
                old(buf)@.len() as int,
            ),
            n == lookup_bytes(
                self.log(),
                height as int,
                StoreKeyView { hash: key_hash@, bytes: key@ },
                old(buf)@.len() as int,
            ).len(),
            final(buf)@.subrange(n as int, old(buf)@.len() as int) == old(buf)@.subrange(
                n as int,
                old(buf)@.len() as int,
            ),
    {
        let ghost wanted = StoreKeyView { hash: key_hash@, bytes: key@ };
        let mut i: usize = self.entries.len();
        assert(self.log().subrange(0, i as int) =~= self.log());
        while i > 0
            invariant
                i <= self.entries@.len(),
                wanted == (StoreKeyView { hash: key_hash@, bytes: key@ }),
                buf@ == old(buf)@,
                lookup(self.log(), height as int, wanted) == lookup(
                    self.log().subrange(0, i as int),
                    height as int,
                    wanted,
                ),
            decreases i,
        {
            let e = &self.entries[i - 1];
            let ghost prefix = self.log().subrange(0, i as int);
            proof {
                assert(prefix.last() == e@);
                assert(prefix.drop_last() =~= self.log().subrange(0, i - 1));
            }
            if e.height <= height && bytes_eq(e.key.hash.bytes.as_slice(), key_hash.bytes.as_slice())
                && bytes_eq(e.key.bytes.as_slice(), key) {
                proof {
                    assert(e.key.hash@ =~= key_hash@);
                    assert(e@.key == wanted);
                }
                match &e.value {
                    Some(v) => {
                        let n: usize = if v.len() <= buf.len() {
                            v.len()
                        } else {
                            buf.len()
                        };
                        let mut j: usize = 0;
                        while j < n
                            invariant
                                j <= n,
                                n <= v@.len(),
                                n <= buf@.len(),
                                buf@.len() == old(buf)@.len(),
                                forall|k: int| 0 <= k < j ==> buf@[k] == v@[k],
                                forall|k: int| j <= k < buf@.len() ==> buf@[k] == old(buf)@[k],
                            decreases n - j,
                        {
                            buf.set(j, v[j]);
                            j = j + 1;
                        }
                        proof {
                            let found = lookup_bytes(
                                self.log(),
                                height as int,
                                wanted,
                                old(buf)@.len() as int,
                            );
                            assert(found =~= v@.subrange(0, n as int));
                            assert(buf@.subrange(0, n as int) =~= found);
                            assert(buf@.subrange(n as int, old(buf)@.len() as int) =~= old(
                                buf,
                            )@.subrange(n as int, old(buf)@.len() as int));
                        }
                        return n;
                    },
                    None => {
                        proof {
                            assert(buf@.subrange(0, 0) =~= Seq::<u8>::empty());
                        }
                        return 0;
                    },
                }
            }
            proof {
                if e@.key == wanted {
                    assert(e.key.hash@ == key_hash@);
                }
            }
            i = i - 1;
        }
        proof {
            assert(self.log().subrange(0, 0) =~= Seq::<EntryView>::empty());
            assert(buf@.subrange(0, 0) =~= Seq::<u8>::empty());
        }
        0
    }
}

} // verus!
