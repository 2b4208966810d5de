use qmdb_adapter::primitives::{B256, U256};
use qmdb_adapter::record::{
    decode_word_record, encode_word_record, AccountRecord, Bytecode, ACCOUNT_RECORD_LEN,
    MAX_CODE_LEN, MAX_CODE_RECORD_LEN, TAG_ACCOUNT, TAG_BLOCK_HASH, TAG_CODE, TAG_STORAGE,
    WORD_RECORD_LEN,
};

fn sample_record() -> AccountRecord {
    AccountRecord {
        nonce: 0x0102,
        balance: U256::from_u64(5),
        code_hash: B256 { bytes: [0xaa; 32] },
        storage_root: B256 { bytes: [0xbb; 32] },
    }
}

#[test]
fn account_record_is_encoded_field_after_field() {
    let bytes = sample_record().encode();
    let mut expected = vec![1u8];
    expected.extend_from_slice(&[0, 0, 0, 0, 0, 0, 1, 2]);
    expected.extend_from_slice(&[0u8; 31]);
    expected.push(5);
    expected.extend_from_slice(&[0xaa; 32]);
    expected.extend_from_slice(&[0xbb; 32]);
    assert_eq!(bytes.len(), 105);
    assert_eq!(bytes.len(), ACCOUNT_RECORD_LEN);
    assert_eq!(bytes, expected);
}

#[test]
fn account_record_survives_encoding_and_decoding() {
    let record = sample_record();
    assert_eq!(AccountRecord::decode(&record.encode()), Some(record));
    let other = AccountRecord {
        nonce: u64::MAX,
        balance: U256 { be_bytes: [0xff; 32] },
        code_hash: B256::zero(),
        storage_root: B256::zero(),
    };
    assert_eq!(AccountRecord::decode(&other.encode()), Some(other));
}

#[test]
fn account_record_of_wrong_length_is_not_decoded() {
    let bytes = sample_record().encode();
    assert_eq!(AccountRecord::decode(&bytes[..104]), None);
    let mut longer = bytes.clone();
    longer.push(0);
    assert_eq!(AccountRecord::decode(&longer), None);
    assert_eq!(AccountRecord::decode(&[]), None);
}

#[test]
fn account_record_with_wrong_tag_is_not_decoded() {
    let mut bytes = sample_record().encode();
    bytes[0] = TAG_STORAGE;
    assert_eq!(AccountRecord::decode(&bytes), None);
    bytes[0] = 0;
    assert_eq!(AccountRecord::decode(&bytes), None);
}

#[test]
fn record_tags_are_four_different_bytes() {
    assert_eq!([TAG_ACCOUNT, TAG_STORAGE, TAG_CODE, TAG_BLOCK_HASH], [1, 2, 3, 4]);
}

#[test]
fn word_record_is_the_tag_and_the_word() {
    let word = [0x11u8; 32];
    let bytes = encode_word_record(TAG_STORAGE, &word);
    assert_eq!(bytes.len(), WORD_RECORD_LEN);
    assert_eq!(bytes[0], 2);
    assert_eq!(&bytes[1..], &word[..]);
    assert_eq!(decode_word_record(TAG_STORAGE, &bytes), Some(word));
}

#[test]
fn word_record_of_another_kind_is_not_decoded() {
    let bytes = encode_word_record(TAG_STORAGE, &[0x11u8; 32]);
    assert_eq!(decode_word_record(TAG_BLOCK_HASH, &bytes), None);
    assert_eq!(decode_word_record(TAG_STORAGE, &bytes[..32]), None);
    assert_eq!(decode_word_record(TAG_STORAGE, &[]), None);
}

#[test]
fn bytecode_holds_up_to_the_limit() {
    assert_eq!(MAX_CODE_LEN, 24576);
    assert_eq!(MAX_CODE_RECORD_LEN, 24577);
    let code = Bytecode::new(vec![0x60; MAX_CODE_LEN]).expect("within the limit");
    assert_eq!(code.len(), MAX_CODE_LEN);
    assert!(Bytecode::new(vec![0x60; MAX_CODE_LEN + 1]).is_none());
    assert_eq!(Bytecode::new(Vec::new()).expect("empty code").len(), 0);
}

#[test]
fn bytecode_survives_encoding_and_decoding() {
    let code = Bytecode::new(vec![0x60, 0x00, 0x60, 0x00, 0xf3]).expect("short code");
    let bytes = code.encode();
    assert_eq!(bytes, vec![3, 0x60, 0x00, 0x60, 0x00, 0xf3]);
    let back = Bytecode::decode(&bytes).expect("decodes");
    assert_eq!(back.as_bytes(), code.as_bytes());
    assert_eq!(back, code.clone());
}

#[test]
fn bytecode_record_that_is_malformed_is_not_decoded() {
    assert!(Bytecode::decode(&[]).is_none());
    assert!(Bytecode::decode(&[1, 2, 3]).is_none());
    let mut too_long = vec![0u8; MAX_CODE_RECORD_LEN + 1];
    too_long[0] = TAG_CODE;
    assert!(Bytecode::decode(&too_long).is_none());
    let empty = Bytecode::decode(&[TAG_CODE]).expect("empty code");
    assert_eq!(empty.len(), 0);
}
