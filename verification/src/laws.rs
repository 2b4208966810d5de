//! What holds of the writer, the store and the reader together.
//!
//! The laws speak of the log of the library's own store, of the batch that a
//! controller hands out for a block, and of what a reader makes of the
//! store's answer. They hold of that store; of a store on disk they hold as
//! far as it answers lookups as that one does.
//! `VersionedStore::commit`, `Qmdb::flush` and the methods of
//! `SnapshotReader` are stated over the same functions, so the laws hold of
//! every run of them.

use vstd::prelude::*;
use crate::error::QmdbError;
use crate::hashing::{
    account_key_bytes, block_hash_key_bytes, code_key_bytes, keccak256_digest, key_of,
    storage_key_bytes, StoreKeyView,
};
use crate::lifecycle::{flush_begun, flush_done, flush_failed, Phase, QmdbView};
use crate::primitives::{Address, B256, U256};
use crate::reader::{
    account_result, answer, block_hash_result, code_result, storage_result, ACCOUNT_BUF_LEN,
    CODE_BUF_LEN, WORD_BUF_LEN,
};
use crate::record::{
    lemma_account_roundtrip, lemma_code_roundtrip, lemma_word_roundtrip, AccountRecord,
    AccountRecordView, MAX_CODE_LEN, TAG_BLOCK_HASH, TAG_STORAGE,
};
use crate::store::{commit_log, entries_of, entry_of, lookup, EntryView, MutationView};
use crate::writer::{
    account_mutation, block_hash_mutation, code_mutation, storage_mutation, AccountChange,
};

verus! {

/// Entries that come behind those of a log are not seen by a lookup of `key`
/// at `height` when each of them is of another key or above `height`.
pub proof fn lemma_lookup_skips(
    log: Seq<EntryView>,
    more: Seq<EntryView>,
    height: int,
    key: StoreKeyView,
)
    requires
        forall|j: int| 0 <= j < more.len() && more[j].key == key ==> more[j].height > height,
    ensures
        lookup(log + more, height, key) == lookup(log, height, key),
    decreases more.len(),
{
    if more.len() == 0 {
        assert(log + more =~= log);
    } else {
        let whole = log + more;
        assert(whole.last() == more.last());
        assert(whole.drop_last() =~= log + more.drop_last());
        lemma_lookup_skips(log, more.drop_last(), height, key);
    }
}

/// A lookup of `key` at `height` finds what the batch's write `i` holds when
/// that write is of `key`, the batch was committed at or below `height`, and
/// every write of `key` behind it, in the batch or after it, is above
/// `height`.
pub proof fn lemma_lookup_finds_write(
    log: Seq<EntryView>,
    at: int,
    batch: Seq<MutationView>,
    later: Seq<EntryView>,
    i: int,
    height: int,
)
    requires
        0 <= i < batch.len(),
        at <= height,
        forall|j: int| i < j < batch.len() ==> batch[j].key != batch[i].key,
        forall|j: int|
            0 <= j < later.len() && later[j].key == batch[i].key ==> later[j].height > height,
    ensures
        lookup(commit_log(log, at, batch) + later, height, batch[i].key) == batch[i].value,
{
    let key = batch[i].key;
    let added = entries_of(at, batch);
    let upto = (log + added.subrange(0, i)).push(added[i]);
    let rest = added.subrange(i + 1, added.len() as int) + later;
    assert(commit_log(log, at, batch) + later =~= upto + rest);
    assert forall|j: int| 0 <= j < rest.len() && rest[j].key == key implies rest[j].height
        > height by {
        if j < added.len() - (i + 1) {
            assert(rest[j] == entry_of(at, batch[i + 1 + j]));
        } else {
            assert(rest[j] == later[j - (added.len() - (i + 1))]);
        }
    }
    lemma_lookup_skips(upto, rest, height, key);
    assert(upto.last() == entry_of(at, batch[i]));
}

/// An account that a block wrote is read back as it was written: at the
/// block's height and at every later height up to the next write of the
/// account, the reader's answer is the record written.
pub proof fn law_read_returns_written_record(
    log: Seq<EntryView>,
    at: int,
    batch: Seq<MutationView>,
    later: Seq<EntryView>,
    i: int,
    address: Address,
    record: AccountRecord,
    height: int,
)
    requires
        0 <= i < batch.len(),
        batch[i] == account_mutation((AccountChange { address, info: Some(record) })@),
        at <= height,
        forall|j: int| i < j < batch.len() ==> batch[j].key != batch[i].key,
        forall|j: int|
            0 <= j < later.len() && later[j].key == batch[i].key ==> later[j].height > height,
    ensures
        account_result(
            answer(
                commit_log(log, at, batch) + later,
                height,
                key_of(account_key_bytes(address@)),
                ACCOUNT_BUF_LEN as int,
            ),
        ) == Ok::<Option<AccountRecordView>, QmdbError>(Some(record@)),
{
    lemma_lookup_finds_write(log, at, batch, later, i, height);
    lemma_account_roundtrip(record@);
}

/// An account that was never written is absent at every height: the
/// reader's answer is `None`, and never an error.
pub proof fn law_unwritten_account_is_absent(log: Seq<EntryView>, address: Address, height: int)
    requires
        forall|j: int| 0 <= j < log.len() ==> log[j].key != key_of(account_key_bytes(address@)),
    ensures
        account_result(
            answer(log, height, key_of(account_key_bytes(address@)), ACCOUNT_BUF_LEN as int),
        ) == Ok::<Option<AccountRecordView>, QmdbError>(None),
{
    let key = key_of(account_key_bytes(address@));
    lemma_lookup_skips(Seq::empty(), log, height, key);
    assert(Seq::<EntryView>::empty() + log =~= log);
}

/// An account that a block deleted is absent at the block's height and at
/// every later height up to the next write of the account.
pub proof fn law_deleted_account_is_absent(
    log: Seq<EntryView>,
    at: int,
    batch: Seq<MutationView>,
    later: Seq<EntryView>,
    i: int,
    address: Address,
    height: int,
)
    requires
        0 <= i < batch.len(),
        batch[i] == account_mutation((AccountChange { address, info: None })@),
        at <= height,
        forall|j: int| i < j < batch.len() ==> batch[j].key != batch[i].key,
        forall|j: int|
            0 <= j < later.len() && later[j].key == batch[i].key ==> later[j].height > height,
    ensures
        account_result(
            answer(
                commit_log(log, at, batch) + later,
                height,
                key_of(account_key_bytes(address@)),
                ACCOUNT_BUF_LEN as int,
            ),
        ) == Ok::<Option<AccountRecordView>, QmdbError>(None),
{
    lemma_lookup_finds_write(log, at, batch, later, i, height);
}

/// A storage slot that a block wrote is read back as it was written, at the
/// block's height and at every later height up to the next write of the slot.
pub proof fn law_read_returns_written_storage(
    log: Seq<EntryView>,
    at: int,
    batch: Seq<MutationView>,
    later: Seq<EntryView>,
    i: int,
    address: Address,
    index: U256,
    value: U256,
    height: int,
)
    requires
        0 <= i < batch.len(),
        batch[i] == storage_mutation(address@, index@, value@),
        at <= height,
        forall|j: int| i < j < batch.len() ==> batch[j].key != batch[i].key,
        forall|j: int|
            0 <= j < later.len() && later[j].key == batch[i].key ==> later[j].height > height,
    ensures
        storage_result(
            answer(
                commit_log(log, at, batch) + later,
                height,
                key_of(storage_key_bytes(address@, index@)),
                WORD_BUF_LEN as int,
            ),
        ) == Ok::<Seq<u8>, QmdbError>(value@),
{
    lemma_lookup_finds_write(log, at, batch, later, i, height);
    lemma_word_roundtrip(TAG_STORAGE, value@);
}

/// A storage slot that was never written holds zero at every height.
pub proof fn law_unwritten_storage_is_zero(
    log: Seq<EntryView>,
    address: Address,
    index: U256,
    height: int,
)
    requires
        forall|j: int|
            0 <= j < log.len() ==> log[j].key != key_of(storage_key_bytes(address@, index@)),
    ensures
        storage_result(
            answer(
                log,
                height,
                key_of(storage_key_bytes(address@, index@)),
                WORD_BUF_LEN as int,
            ),
        ) == Ok::<Seq<u8>, QmdbError>(Seq::new(32, |k: int| 0u8)),
{
    let key = key_of(storage_key_bytes(address@, index@));
    lemma_lookup_skips(Seq::empty(), log, height, key);
    assert(Seq::<EntryView>::empty() + log =~= log);
}

/// Code that a block wrote is read back as it was written, under its code
/// hash, at the block's height and at every later height up to the next
/// write under that hash.
pub proof fn law_read_returns_written_code(
    log: Seq<EntryView>,
    at: int,
    batch: Seq<MutationView>,
    later: Seq<EntryView>,
    i: int,
    code: Seq<u8>,
    height: int,
)
    requires
        0 <= i < batch.len(),
        code.len() <= MAX_CODE_LEN,
        batch[i] == code_mutation(code),
        at <= height,
        forall|j: int| i < j < batch.len() ==> batch[j].key != batch[i].key,
        forall|j: int|
            0 <= j < later.len() && later[j].key == batch[i].key ==> later[j].height > height,
    ensures
        code_result(
            answer(
                commit_log(log, at, batch) + later,
                height,
                key_of(code_key_bytes(keccak256_digest(code))),
                CODE_BUF_LEN as int,
            ),
            keccak256_digest(code),
        ) == Ok::<Seq<u8>, QmdbError>(code),
{
    lemma_lookup_finds_write(log, at, batch, later, i, height);
    lemma_code_roundtrip(code);
}

/// Code that is read under a hash has that hash: whatever a store holds
/// under the key, the reader hands out no code with another digest.
pub proof fn law_code_read_has_the_hash_asked_for(found: Seq<u8>, code_hash: Seq<u8>)
    ensures
        code_result(found, code_hash) matches Ok(code) ==> keccak256_digest(code) == code_hash,
{
}

/// A block hash that a block wrote is read back as it was written, at the
/// block's height and at every later height up to the next write for that
/// number.
pub proof fn law_read_returns_written_block_hash(
    log: Seq<EntryView>,
    at: int,
    batch: Seq<MutationView>,
    later: Seq<EntryView>,
    i: int,
    number: u64,
    hash: B256,
    height: int,
)
    requires
        0 <= i < batch.len(),
        batch[i] == block_hash_mutation(number, hash@),
        at <= height,
        forall|j: int| i < j < batch.len() ==> batch[j].key != batch[i].key,
        forall|j: int|
            0 <= j < later.len() && later[j].key == batch[i].key ==> later[j].height > height,
    ensures
        block_hash_result(
            answer(
                commit_log(log, at, batch) + later,
                height,
                key_of(block_hash_key_bytes(number)),
                WORD_BUF_LEN as int,
            ),
        ) == Ok::<Seq<u8>, QmdbError>(hash@),
{
    lemma_lookup_finds_write(log, at, batch, later, i, height);
    lemma_word_roundtrip(TAG_BLOCK_HASH, hash@);
}

/// What a block writes, a deletion too, is not seen below the block's
/// height: there every key is answered as before the block.
pub proof fn law_earlier_heights_keep_their_answers(
    log: Seq<EntryView>,
    at: int,
    batch: Seq<MutationView>,
    height: int,
    key: StoreKeyView,
    buf_len: int,
)
    requires
        height < at,
    ensures
        answer(commit_log(log, at, batch), height, key, buf_len) == answer(
            log,
            height,
            key,
            buf_len,
        ),
{
    lemma_lookup_skips(log, entries_of(at, batch), height, key);
}

/// A flush that failed leaves the controller as it was before the flush,
/// with the block's height and writes. So the next flush hands out the same
/// batch for the same height, and when that one is committed the controller
/// and the store's log are as if the first flush had been.
pub proof fn law_failed_flush_can_be_retried(s: QmdbView, log: Seq<EntryView>)
    requires
        s.phase == Phase::Active,
    ensures
        flush_failed(flush_begun(s)) == s,
        flush_failed(flush_begun(s)).height == s.height,
        flush_begun(flush_failed(flush_begun(s))).pending == flush_begun(s).pending,
        flush_done(flush_begun(flush_failed(flush_begun(s)))) == flush_done(flush_begun(s)),
        commit_log(log, s.height, flush_begun(flush_failed(flush_begun(s))).pending) == commit_log(
            log,
            s.height,
            flush_begun(s).pending,
        ),
{
}

} // verus!
