use qmdb_adapter::error::QmdbError;
use qmdb_adapter::hashing::{account_key, block_hash_key, code_key, hash_key, storage_key};
use qmdb_adapter::lifecycle::{LocationStatus, Phase, Qmdb};
use qmdb_adapter::primitives::{Address, B256, U256};
use qmdb_adapter::record::{AccountRecord, Bytecode};
use qmdb_adapter::store::{CommitFailure, Mutation, VersionedStore};
use qmdb_adapter::writer::AccountChange;

fn opened(height: i64) -> Qmdb {
    Qmdb::new(height, LocationStatus::Usable, None).expect("a fresh store takes any height")
}

fn address(byte: u8) -> Address {
    Address { bytes: [byte; 20] }
}

fn record(balance: u64) -> AccountRecord {
    AccountRecord {
        nonce: 1,
        balance: U256::from_u64(balance),
        code_hash: B256 { bytes: [0xc0; 32] },
        storage_root: B256::zero(),
    }
}

#[test]
fn fresh_controller_waits_to_be_initialized() {
    let q = Qmdb::uninitialized(100);
    assert_eq!(q.phase(), Phase::Uninitialized);
    assert_eq!(q.height(), 100);
    assert_eq!(q.pending_len(), 0);
}

#[test]
fn init_with_a_usable_location_makes_the_controller_idle() {
    let mut q = Qmdb::uninitialized(100);
    assert_eq!(q.init(LocationStatus::Usable), Ok(()));
    assert_eq!(q.phase(), Phase::Idle);
    assert_eq!(q.height(), 100);
}

#[test]
fn init_with_an_unusable_location_fails() {
    for status in [
        LocationStatus::IncompatibleVersion,
        LocationStatus::PermissionDenied,
        LocationStatus::CorruptMetadata,
    ] {
        let mut q = Qmdb::uninitialized(100);
        assert_eq!(q.init(status), Err(QmdbError::InitializationError));
        assert_eq!(q.phase(), Phase::Uninitialized);
        assert_eq!(q.start_block(100), Err(QmdbError::SequenceError));
    }
}

#[test]
fn init_twice_is_out_of_order() {
    let mut q = Qmdb::uninitialized(100);
    q.init(LocationStatus::Usable).unwrap();
    assert_eq!(q.init(LocationStatus::Usable), Err(QmdbError::SequenceError));
    assert_eq!(q.phase(), Phase::Idle);
}

#[test]
fn first_block_has_to_be_the_starting_height() {
    let mut q = Qmdb::uninitialized(100);
    q.init(LocationStatus::Usable).unwrap();
    assert_eq!(q.start_block(99), Err(QmdbError::SequenceError));
    assert_eq!(q.start_block(101), Err(QmdbError::SequenceError));
    assert_eq!(q.phase(), Phase::Idle);
    assert_eq!(q.start_block(100), Ok(()));
    assert_eq!(q.phase(), Phase::Active);
    assert_eq!(q.height(), 100);
}

#[test]
fn new_opens_the_first_block_of_a_fresh_store() {
    let q = Qmdb::new(100, LocationStatus::Usable, None).unwrap();
    assert_eq!(q.phase(), Phase::Active);
    assert_eq!(q.height(), 100);
    assert_eq!(q.pending_len(), 0);
    let q = Qmdb::new(-7, LocationStatus::Usable, None).unwrap();
    assert_eq!((q.phase(), q.height()), (Phase::Active, -7));
}

#[test]
fn new_opens_the_height_that_the_store_expects() {
    let q = Qmdb::new(6, LocationStatus::Usable, Some(6)).unwrap();
    assert_eq!((q.phase(), q.height(), q.pending_len()), (Phase::Active, 6, 0));
}

#[test]
fn new_at_another_height_than_expected_is_out_of_order() {
    for height in [3, 5, 7, i64::MIN, i64::MAX] {
        assert_eq!(
            Qmdb::new(height, LocationStatus::Usable, Some(6)).unwrap_err(),
            QmdbError::SequenceError
        );
    }
}

#[test]
fn new_with_an_unusable_location_fails() {
    for status in [
        LocationStatus::IncompatibleVersion,
        LocationStatus::PermissionDenied,
        LocationStatus::CorruptMetadata,
    ] {
        for expected in [None, Some(100), Some(5)] {
            assert_eq!(
                Qmdb::new(100, status, expected).unwrap_err(),
                QmdbError::InitializationError
            );
        }
    }
}

#[test]
fn next_block_has_to_be_the_successor_of_the_flushed_one() {
    let mut q = opened(100);
    q.flush().unwrap();
    assert_eq!(q.complete_flush(Ok(())), Ok(100));
    assert_eq!(q.phase(), Phase::Idle);
    assert_eq!(q.height(), 101);
    assert_eq!(q.start_block(100), Err(QmdbError::SequenceError));
    assert_eq!(q.start_block(102), Err(QmdbError::SequenceError));
    assert_eq!(q.start_block(101), Ok(()));
    assert_eq!(q.height(), 101);
}

#[test]
fn start_block_while_a_block_is_open_is_out_of_order() {
    let mut q = opened(100);
    assert_eq!(q.start_block(100), Err(QmdbError::SequenceError));
    assert_eq!(q.start_block(101), Err(QmdbError::SequenceError));
    assert_eq!(q.phase(), Phase::Active);
    assert_eq!(q.height(), 100);
}

#[test]
fn writes_wait_in_the_open_block() {
    let mut q = opened(100);
    assert_eq!(q.write_account(address(1), Some(record(5))), Ok(()));
    assert_eq!(q.write_account(address(2), None), Ok(()));
    assert_eq!(q.pending_len(), 2);
    let batch = q.flush().unwrap();
    assert_eq!(
        batch,
        vec![
            Mutation { key: account_key(&address(1)), value: Some(record(5).encode()) },
            Mutation { key: account_key(&address(2)), value: None },
        ]
    );
}

#[test]
fn writes_without_an_open_block_are_out_of_order() {
    let mut q = Qmdb::uninitialized(100);
    assert_eq!(q.write_account(address(1), None), Err(QmdbError::SequenceError));
    q.init(LocationStatus::Usable).unwrap();
    assert_eq!(q.write_account(address(1), None), Err(QmdbError::SequenceError));
    assert_eq!(
        q.write_accounts(&vec![AccountChange { address: address(1), info: None }]),
        Err(QmdbError::SequenceError)
    );
    assert_eq!(
        q.write_storage(address(1), U256::zero(), U256::zero()),
        Err(QmdbError::SequenceError)
    );
    assert_eq!(q.write_code(&Bytecode::new(vec![1]).unwrap()), Err(QmdbError::SequenceError));
    assert_eq!(q.write_block_hash(1, B256::zero()), Err(QmdbError::SequenceError));
    assert_eq!(q.flush(), Err(QmdbError::SequenceError));
    assert_eq!(q.pending_len(), 0);
}

#[test]
fn writes_while_flushing_are_out_of_order() {
    let mut q = opened(100);
    q.write_account(address(1), Some(record(5))).unwrap();
    q.flush().unwrap();
    assert_eq!(q.phase(), Phase::Flushing);
    assert_eq!(q.write_account(address(2), None), Err(QmdbError::SequenceError));
    assert_eq!(q.flush(), Err(QmdbError::SequenceError));
    assert_eq!(q.pending_len(), 1);
}

#[test]
fn write_accounts_keeps_the_given_order() {
    let mut q = opened(1);
    let changes = vec![
        AccountChange { address: address(9), info: Some(record(1)) },
        AccountChange { address: address(3), info: None },
        AccountChange { address: address(9), info: Some(record(2)) },
    ];
    assert_eq!(q.write_accounts(&changes), Ok(()));
    let batch = q.flush().unwrap();
    assert_eq!(
        batch,
        vec![
            Mutation { key: account_key(&address(9)), value: Some(record(1).encode()) },
            Mutation { key: account_key(&address(3)), value: None },
            Mutation { key: account_key(&address(9)), value: Some(record(2).encode()) },
        ]
    );
}

#[test]
fn storage_code_and_block_hash_writes_are_records_of_their_kind() {
    let mut q = opened(1);
    let code = Bytecode::new(vec![0x60, 0x00]).unwrap();
    q.write_storage(address(1), U256::from_u64(2), U256::from_u64(3)).unwrap();
    let code_hash = q.write_code(&code).unwrap();
    assert_eq!(code_hash, hash_key(&[0x60, 0x00]));
    q.write_block_hash(7, B256 { bytes: [8; 32] }).unwrap();
    let batch = q.flush().unwrap();
    let mut storage_value = vec![2u8];
    storage_value.extend_from_slice(&U256::from_u64(3).be_bytes);
    let mut hash_value = vec![4u8];
    hash_value.extend_from_slice(&[8; 32]);
    assert_eq!(
        batch,
        vec![
            Mutation {
                key: storage_key(&address(1), &U256::from_u64(2)),
                value: Some(storage_value),
            },
            Mutation { key: code_key(&code_hash), value: Some(vec![3, 0x60, 0x00]) },
            Mutation { key: block_hash_key(7), value: Some(hash_value) },
        ]
    );
}

#[test]
fn complete_flush_without_a_flush_is_out_of_order() {
    let mut q = opened(100);
    assert_eq!(q.complete_flush(Ok(())), Err(QmdbError::SequenceError));
    assert_eq!(q.phase(), Phase::Active);
    assert_eq!(q.height(), 100);
}

#[test]
fn failed_flush_leaves_the_height_and_the_writes() {
    let mut q = opened(100);
    q.write_account(address(1), Some(record(5))).unwrap();
    let first = q.flush().unwrap();
    assert_eq!(
        q.complete_flush(Err(CommitFailure::StaleHeight)),
        Err(QmdbError::CommitError)
    );
    assert_eq!(q.phase(), Phase::Active);
    assert_eq!(q.height(), 100);
    assert_eq!(q.pending_len(), 1);
    let second = q.flush().unwrap();
    assert_eq!(second, first);
    assert_eq!(q.complete_flush(Ok(())), Ok(100));
    assert_eq!(q.phase(), Phase::Idle);
    assert_eq!(q.height(), 101);
    assert_eq!(q.pending_len(), 0);
}

#[test]
fn retried_flush_commits_what_a_first_flush_would_have() {
    let mut retried_store = VersionedStore::new();
    let mut retried = opened(100);
    retried.write_account(address(1), Some(record(5))).unwrap();
    retried.write_account(address(2), None).unwrap();
    let _lost = retried.flush().unwrap();
    retried.complete_flush(Err(CommitFailure::StaleHeight)).unwrap_err();
    let batch = retried.flush().unwrap();
    let outcome = retried_store.commit(retried.height(), &batch);
    retried.complete_flush(outcome).unwrap();

    let mut direct_store = VersionedStore::new();
    let mut direct = opened(100);
    direct.write_account(address(1), Some(record(5))).unwrap();
    direct.write_account(address(2), None).unwrap();
    let batch = direct.flush().unwrap();
    let outcome = direct_store.commit(direct.height(), &batch);
    direct.complete_flush(outcome).unwrap();

    assert_eq!(retried.phase(), direct.phase());
    assert_eq!(retried.height(), direct.height());
    assert_eq!(retried_store.len(), direct_store.len());
    assert_eq!(retried_store.last_committed(), direct_store.last_committed());
    for byte in [1u8, 2, 3] {
        let key = account_key(&address(byte));
        let mut a = vec![0u8; 200];
        let mut b = vec![0u8; 200];
        let n = retried_store.read_entry(100, &key.hash, &key.bytes, &mut a);
        let m = direct_store.read_entry(100, &key.hash, &key.bytes, &mut b);
        assert_eq!(n, m);
        assert_eq!(a, b);
    }
}

#[test]
fn store_refusal_is_a_commit_error() {
    let mut store = VersionedStore::new();
    store.commit(100, &Vec::new()).unwrap();
    let mut q = opened(100);
    q.write_account(address(1), Some(record(5))).unwrap();
    let batch = q.flush().unwrap();
    let outcome = store.commit(q.height(), &batch);
    assert_eq!(outcome, Err(CommitFailure::StaleHeight));
    assert_eq!(q.complete_flush(outcome), Err(QmdbError::CommitError));
    assert_eq!(q.height(), 100);
    assert_eq!(store.len(), 0);
}

#[test]
fn flush_at_the_last_height_closes_the_controller() {
    let mut q = opened(i64::MAX);
    q.flush().unwrap();
    assert_eq!(q.complete_flush(Ok(())), Ok(i64::MAX));
    assert_eq!(q.phase(), Phase::Closed);
    assert_eq!(q.height(), i64::MAX);
    assert_eq!(q.start_block(i64::MAX), Err(QmdbError::SequenceError));
}

#[test]
fn reader_is_pinned_to_the_open_block() {
    let mut q = opened(100);
    assert_eq!(q.get_shared_reader().unwrap().height(), 100);
    q.flush().unwrap();
    assert_eq!(q.get_shared_reader().unwrap().height(), 100);
    q.complete_flush(Ok(())).unwrap();
    assert_eq!(q.get_shared_reader(), Err(QmdbError::SequenceError));
    q.start_block(101).unwrap();
    let reader = q.get_shared_reader().unwrap();
    let copy = reader;
    assert_eq!(copy.height(), 101);
    assert_eq!(reader, copy);
}

#[test]
fn no_reader_before_the_first_block() {
    let mut q = Qmdb::uninitialized(5);
    assert_eq!(q.get_shared_reader(), Err(QmdbError::SequenceError));
    q.init(LocationStatus::Usable).unwrap();
    assert_eq!(q.get_shared_reader(), Err(QmdbError::SequenceError));
}

#[test]
fn close_needs_no_open_block() {
    let mut open = opened(100);
    assert_eq!(open.close(), Err(QmdbError::SequenceError));
    assert_eq!(open.phase(), Phase::Active);
    open.flush().unwrap();
    assert_eq!(open.close(), Err(QmdbError::SequenceError));
    open.complete_flush(Ok(())).unwrap();
    assert_eq!(open.close(), Ok(()));
    assert_eq!(open.phase(), Phase::Closed);
    assert_eq!(open.close(), Err(QmdbError::SequenceError));
    assert_eq!(open.start_block(101), Err(QmdbError::SequenceError));

    let mut fresh = Qmdb::uninitialized(1);
    assert_eq!(fresh.close(), Ok(()));
    assert_eq!(fresh.init(LocationStatus::Usable), Err(QmdbError::SequenceError));
}

#[test]
fn errors_tell_how_grave_they_are() {
    assert!(QmdbError::InitializationError.is_fatal());
    assert!(QmdbError::SequenceError.is_fatal());
    assert!(!QmdbError::CommitError.is_fatal());
    assert!(!QmdbError::ReadError.is_fatal());
    assert!(!QmdbError::NotFound.is_fatal());
    assert!(QmdbError::CommitError.is_retryable());
    assert!(!QmdbError::SequenceError.is_retryable());
    assert!(!QmdbError::NotFound.is_retryable());
    assert!(QmdbError::ReadError.aborts_block());
    assert!(!QmdbError::NotFound.aborts_block());
    assert!(!QmdbError::CommitError.aborts_block());
}

#[test]
fn flush_to_commits_the_block_at_its_height() {
    let mut store = VersionedStore::new();
    let mut q = opened(100);
    q.write_account(address(1), Some(record(5))).unwrap();
    q.write_account(address(2), None).unwrap();
    assert_eq!(q.flush_to(&mut store), Ok(100));
    assert_eq!(q.phase(), Phase::Idle);
    assert_eq!(q.height(), 101);
    assert_eq!(q.pending_len(), 0);
    assert_eq!(store.len(), 2);
    assert_eq!(store.last_committed(), Some(100));
    let key = account_key(&address(1));
    let mut buf = vec![0u8; 106];
    assert_eq!(store.read_entry(100, &key.hash, &key.bytes, &mut buf), 105);
    assert_eq!(&buf[..105], &record(5).encode()[..]);
}

#[test]
fn flush_to_a_store_that_is_ahead_is_a_commit_error() {
    let mut store = VersionedStore::new();
    store.commit(100, &Vec::new()).unwrap();
    let mut q = opened(100);
    q.write_account(address(1), Some(record(5))).unwrap();
    assert_eq!(q.flush_to(&mut store), Err(QmdbError::CommitError));
    assert_eq!(q.phase(), Phase::Active);
    assert_eq!(q.height(), 100);
    assert_eq!(q.pending_len(), 1);
    assert_eq!(store.len(), 0);
    assert_eq!(store.last_committed(), Some(100));
}

#[test]
fn flush_to_without_an_open_block_is_out_of_order() {
    let mut store = VersionedStore::new();
    let mut q = Qmdb::uninitialized(100);
    assert_eq!(q.flush_to(&mut store), Err(QmdbError::SequenceError));
    q.init(LocationStatus::Usable).unwrap();
    assert_eq!(q.flush_to(&mut store), Err(QmdbError::SequenceError));
    assert_eq!(store.last_committed(), None);
    q.start_block(100).unwrap();
    assert_eq!(q.flush_to(&mut store), Ok(100));
    assert_eq!(q.flush_to(&mut store), Err(QmdbError::SequenceError));
    q.start_block(101).unwrap();
    assert_eq!(q.flush_to(&mut store), Ok(101));
    assert_eq!(store.last_committed(), Some(101));
}
