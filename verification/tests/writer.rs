use qmdb_adapter::bundle::{account_changes, PlainAccount, PlainInfo};
use qmdb_adapter::error::QmdbError;
use qmdb_adapter::hashing::account_key;
use qmdb_adapter::lifecycle::{LocationStatus, Qmdb};
use qmdb_adapter::primitives::{Address, B256, U256};
use qmdb_adapter::reader::SnapshotReader;
use qmdb_adapter::record::AccountRecord;
use qmdb_adapter::store::{Mutation, VersionedStore};
use qmdb_adapter::writer::{
    mutation_of_block_hash, mutation_of_change, mutation_of_storage, sort_changes, AccountChange,
};
use revm::database::BundleState;
use revm::state::AccountInfo;

fn opened(height: i64) -> Qmdb {
    Qmdb::new(height, LocationStatus::Usable, None).expect("a fresh store takes any height")
}

fn address(byte: u8) -> Address {
    Address { bytes: [byte; 20] }
}

fn engine_address(byte: u8) -> alloy_primitives::Address {
    alloy_primitives::Address::from([byte; 20])
}

fn engine_info(nonce: u64, balance: u64) -> AccountInfo {
    AccountInfo::default()
        .with_nonce(nonce)
        .with_balance(alloy_primitives::U256::from(balance))
        .with_code_hash(alloy_primitives::B256::from([0xc0; 32]))
}

fn record(nonce: u64, balance: u64) -> AccountRecord {
    AccountRecord {
        nonce,
        balance: U256::from_u64(balance),
        code_hash: B256 { bytes: [0xc0; 32] },
        storage_root: B256::zero(),
    }
}

fn change(byte: u8, info: Option<AccountRecord>) -> AccountChange {
    AccountChange { address: address(byte), info }
}

#[test]
fn change_with_a_record_is_a_write_of_its_encoding() {
    let m = mutation_of_change(&change(1, Some(record(1, 5))));
    assert_eq!(m.key, account_key(&address(1)));
    assert_eq!(m.value, Some(record(1, 5).encode()));
}

#[test]
fn change_without_a_record_is_a_deletion() {
    let m = mutation_of_change(&change(1, None));
    assert_eq!(m, Mutation { key: account_key(&address(1)), value: None });
}

#[test]
fn storage_and_block_hash_writes_carry_their_tag() {
    let s = mutation_of_storage(&address(1), &U256::from_u64(2), &U256::from_u64(3));
    assert_eq!(s.value.as_ref().map(|v| (v.len(), v[0], v[32])), Some((33, 2, 3)));
    let b = mutation_of_block_hash(9, &B256 { bytes: [7; 32] });
    assert_eq!(b.value.as_ref().map(|v| (v.len(), v[0], v[32])), Some((33, 4, 7)));
}

#[test]
fn changes_are_sorted_by_address() {
    let sorted = sort_changes(&vec![
        change(9, None),
        change(1, Some(record(1, 1))),
        change(5, Some(record(2, 2))),
        change(0, None),
    ]);
    assert_eq!(
        sorted,
        vec![
            change(0, None),
            change(1, Some(record(1, 1))),
            change(5, Some(record(2, 2))),
            change(9, None),
        ]
    );
}

#[test]
fn changes_of_one_address_keep_their_order() {
    let sorted = sort_changes(&vec![
        change(5, Some(record(1, 1))),
        change(1, None),
        change(5, Some(record(2, 2))),
        change(5, None),
        change(1, Some(record(3, 3))),
    ]);
    assert_eq!(
        sorted,
        vec![
            change(1, None),
            change(1, Some(record(3, 3))),
            change(5, Some(record(1, 1))),
            change(5, Some(record(2, 2))),
            change(5, None),
        ]
    );
}

#[test]
fn sorting_goes_by_the_first_different_byte() {
    let mut low = [0u8; 20];
    low[19] = 0xff;
    let mut high = [0u8; 20];
    high[0] = 1;
    let a = AccountChange { address: Address { bytes: high }, info: None };
    let b = AccountChange { address: Address { bytes: low }, info: None };
    assert_eq!(sort_changes(&vec![a, b]), vec![b, a]);
    assert_eq!(sort_changes(&Vec::new()), Vec::<AccountChange>::new());
    assert_eq!(sort_changes(&vec![a]), vec![a]);
}

#[test]
fn bundle_account_becomes_a_record_with_a_zero_storage_root() {
    let plain = vec![
        PlainAccount {
            address: address(1),
            info: Some(PlainInfo {
                nonce: 4,
                balance: U256::from_u64(5),
                code_hash: B256 { bytes: [0xc0; 32] },
            }),
        },
        PlainAccount { address: address(2), info: None },
    ];
    assert_eq!(
        account_changes(&plain),
        vec![change(1, Some(record(4, 5))), change(2, None)]
    );
}

#[test]
fn plain_accounts_are_written_in_the_order_of_their_addresses() {
    let info = PlainInfo { nonce: 1, balance: U256::from_u64(2), code_hash: B256 { bytes: [0xc0; 32] } };
    let listed = vec![
        PlainAccount { address: address(7), info: None },
        PlainAccount { address: address(2), info: Some(info) },
        PlainAccount { address: address(5), info: Some(info) },
    ];
    let mut other_order = listed.clone();
    other_order.reverse();
    let mut first = opened(1);
    let mut second = opened(1);
    assert_eq!(first.write_plain_accounts(&listed), Ok(()));
    assert_eq!(second.write_plain_accounts(&other_order), Ok(()));
    let batch = first.flush().unwrap();
    assert_eq!(
        batch,
        vec![
            mutation_of_change(&change(2, Some(record(1, 2)))),
            mutation_of_change(&change(5, Some(record(1, 2)))),
            mutation_of_change(&change(7, None)),
        ]
    );
    assert_eq!(second.flush().unwrap(), batch);
    let mut idle = Qmdb::uninitialized(1);
    assert_eq!(idle.write_plain_accounts(&listed), Err(QmdbError::SequenceError));
}

#[test]
fn bundle_is_written_in_the_order_of_the_addresses() {
    let bundle = BundleState::builder(0..=0)
        .state_present_account_info(engine_address(9), engine_info(1, 90))
        .state_present_account_info(engine_address(3), engine_info(2, 30))
        .state_present_account_info(engine_address(200), engine_info(3, 2000))
        .state_original_account_info(engine_address(7), engine_info(4, 70))
        .state_present_account_info(engine_address(1), engine_info(5, 10))
        .build();
    let mut q = opened(100);
    assert_eq!(q.write_state(&bundle), Ok(()));
    let batch = q.flush().unwrap();
    assert_eq!(
        batch,
        vec![
            mutation_of_change(&change(1, Some(record(5, 10)))),
            mutation_of_change(&change(3, Some(record(2, 30)))),
            mutation_of_change(&change(7, None)),
            mutation_of_change(&change(9, Some(record(1, 90)))),
            mutation_of_change(&change(200, Some(record(3, 2000)))),
        ]
    );
}

#[test]
fn bundle_account_that_did_not_change_is_not_written() {
    let bundle = BundleState::builder(0..=0)
        .state_original_account_info(engine_address(1), engine_info(1, 10))
        .state_present_account_info(engine_address(1), engine_info(1, 10))
        .state_original_account_info(engine_address(2), engine_info(1, 10))
        .state_present_account_info(engine_address(2), engine_info(2, 10))
        .build();
    let mut q = opened(100);
    q.write_state(&bundle).unwrap();
    assert_eq!(q.flush().unwrap(), vec![mutation_of_change(&change(2, Some(record(2, 10))))]);
}

#[test]
fn bundle_balance_keeps_all_its_bytes() {
    let balance = alloy_primitives::U256::from_be_bytes([0xabu8; 32]);
    let info = AccountInfo::default().with_nonce(1).with_balance(balance);
    let code_hash = info.code_hash;
    let bundle =
        BundleState::builder(0..=0).state_present_account_info(engine_address(1), info).build();
    let mut q = opened(1);
    q.write_state(&bundle).unwrap();
    let expected = AccountRecord {
        nonce: 1,
        balance: U256 { be_bytes: [0xab; 32] },
        code_hash: B256 { bytes: code_hash.0 },
        storage_root: B256::zero(),
    };
    assert_eq!(q.flush().unwrap(), vec![mutation_of_change(&change(1, Some(expected)))]);
}

#[test]
fn empty_bundle_writes_nothing() {
    let mut q = opened(1);
    assert_eq!(q.write_state(&BundleState::default()), Ok(()));
    assert_eq!(q.pending_len(), 0);
}

#[test]
fn bundle_without_an_open_block_is_out_of_order() {
    let bundle = BundleState::builder(0..=0)
        .state_present_account_info(engine_address(1), engine_info(1, 10))
        .build();
    let mut q = Qmdb::uninitialized(1);
    assert_eq!(q.write_state(&bundle), Err(QmdbError::SequenceError));
    q.init(LocationStatus::Usable).unwrap();
    assert_eq!(q.write_state(&bundle), Err(QmdbError::SequenceError));
    assert_eq!(q.pending_len(), 0);
}

#[test]
fn bundle_written_at_a_block_is_read_after_the_flush() {
    let mut store = VersionedStore::new();
    let mut q = opened(100);
    q.start_block(100).unwrap_err();
    let before = SnapshotReader::at(99);
    let bundle = BundleState::builder(100..=100)
        .state_present_account_info(engine_address(0x58), engine_info(0, 5))
        .build();
    q.write_state(&bundle).unwrap();
    let batch = q.flush().unwrap();
    let outcome = store.commit(q.height(), &batch);
    assert_eq!(q.complete_flush(outcome), Ok(100));
    let reader = SnapshotReader::at(100);
    let found = reader.basic(&store, &address(0x58)).unwrap().expect("written at 100");
    assert_eq!(found.balance.to_u64(), Some(5));
    assert_eq!(found, record(0, 5));
    assert_eq!(before.basic(&store, &address(0x58)), Ok(None));
}
