//! The records that the store holds, and their encoding.
//!
//! Every record starts with one byte that tells its kind. An account record
//! and a word record have a fixed length; a code record is as long as the
//! code, up to a limit. The length of the buffer for a lookup is taken from
//! these lengths.

use vstd::prelude::*;
use crate::bytes::{append_bytes, copy_range, read_array32};
use crate::primitives::{
    lemma_u64_be_canonical, lemma_u64_be_roundtrip, u64_be_bytes, u64_from_be, u64_of_be,
    u64_to_be, B256, U256,
};

verus! {

/// First byte of an account record.
pub const TAG_ACCOUNT: u8 = 1;

/// First byte of a storage value record.
pub const TAG_STORAGE: u8 = 2;

/// First byte of a code record.
pub const TAG_CODE: u8 = 3;

/// First byte of a block hash record.
pub const TAG_BLOCK_HASH: u8 = 4;

/// Length of an encoded account record: the tag, the nonce, and three words.
pub const ACCOUNT_RECORD_LEN: usize = 105;

/// Length of an encoded word record: the tag and one word.
pub const WORD_RECORD_LEN: usize = 33;

/// Largest code that a code record holds.
pub const MAX_CODE_LEN: usize = 24576;

/// Length of the longest encoded code record.
pub const MAX_CODE_RECORD_LEN: usize = 24577;

/// What the store knows of an account.
#[derive(Clone, Copy, Debug, PartialEq, Eq)]
pub struct AccountRecord {
    pub nonce: u64,
    pub balance: U256,
    pub code_hash: B256,
    pub storage_root: B256,
}

/// What an `AccountRecord` holds.
pub struct AccountRecordView {
    pub nonce: u64,
    pub balance: Seq<u8>,
    pub code_hash: Seq<u8>,
    pub storage_root: Seq<u8>,
}

impl View for AccountRecord {
    type V = AccountRecordView;

    open spec fn view(&self) -> AccountRecordView {
        AccountRecordView {
            nonce: self.nonce,
            balance: self.balance@,
            code_hash: self.code_hash@,
            storage_root: self.storage_root@,
        }
    }
}

impl AccountRecordView {
    /// Each of the three words is 32 bytes long.
    pub open spec fn wf(self) -> bool {
        self.balance.len() == 32 && self.code_hash.len() == 32 && self.storage_root.len() == 32
    }
}

/// The bytes that stand for an account record.
pub open spec fn encode_account(r: AccountRecordView) -> Seq<u8> {
    seq![TAG_ACCOUNT] + u64_be_bytes(r.nonce) + r.balance + r.code_hash + r.storage_root
}

/// The account record that the bytes stand for, if they stand for one.
pub open spec fn decode_account(bytes: Seq<u8>) -> Option<AccountRecordView> {
    if bytes.len() == ACCOUNT_RECORD_LEN && bytes[0] == TAG_ACCOUNT {
        Some(
            AccountRecordView {
                nonce: u64_of_be(bytes.subrange(1, 9)),
                balance: bytes.subrange(9, 41),
                code_hash: bytes.subrange(41, 73),
                storage_root: bytes.subrange(73, 105),
            },
        )
    } else {
        None
    }
}

/// The bytes that stand for a word of the given kind.
pub open spec fn encode_word(tag: u8, word: Seq<u8>) -> Seq<u8> {
    seq![tag] + word
}

/// The word of the given kind that the bytes stand for, if they stand for one.
pub open spec fn decode_word(tag: u8, bytes: Seq<u8>) -> Option<Seq<u8>> {
    if bytes.len() == WORD_RECORD_LEN && bytes[0] == tag {
        Some(bytes.subrange(1, 33))
    } else {
        None
    }
}

/// The bytes that stand for a contract's code.
pub open spec fn encode_code(code: Seq<u8>) -> Seq<u8> {
    seq![TAG_CODE] + code
}

/// The code that the bytes stand for, if they stand for one.
pub open spec fn decode_code(bytes: Seq<u8>) -> Option<Seq<u8>> {
    if 1 <= bytes.len() <= MAX_CODE_RECORD_LEN && bytes[0] == TAG_CODE {
        Some(bytes.subrange(1, bytes.len() as int))
    } else {
        None
    }
}

/// Decoding an encoded account record gives the record back.
pub proof fn lemma_account_roundtrip(r: AccountRecordView)
    requires
        r.wf(),
    ensures
        encode_account(r).len() == ACCOUNT_RECORD_LEN,
        decode_account(encode_account(r)) == Some(r),
{
    let b = encode_account(r);
    lemma_u64_be_roundtrip(r.nonce);
    assert(b.subrange(1, 9) =~= u64_be_bytes(r.nonce));
    assert(b.subrange(9, 41) =~= r.balance);
    assert(b.subrange(41, 73) =~= r.code_hash);
    assert(b.subrange(73, 105) =~= r.storage_root);
}

/// The bytes that decode to an account record are the record's encoding, so
/// no two byte strings stand for one record.
pub proof fn law_account_encoding_is_canonical(bytes: Seq<u8>)
    requires
        decode_account(bytes) is Some,
    ensures
        decode_account(bytes).unwrap().wf(),
        encode_account(decode_account(bytes).unwrap()) == bytes,
{
    let r = decode_account(bytes).unwrap();
    lemma_u64_be_canonical(bytes.subrange(1, 9));
    assert(encode_account(r) =~= bytes);
}

/// Decoding an encoded word gives the word back.
pub proof fn lemma_word_roundtrip(tag: u8, word: Seq<u8>)
    requires
        word.len() == 32,
    ensures
        encode_word(tag, word).len() == WORD_RECORD_LEN,
        decode_word(tag, encode_word(tag, word)) == Some(word),
{
    assert(encode_word(tag, word).subrange(1, 33) =~= word);
}

/// Decoding encoded code gives the code back.
pub proof fn lemma_code_roundtrip(code: Seq<u8>)
    requires
        code.len() <= MAX_CODE_LEN,
    ensures
        1 <= encode_code(code).len() <= MAX_CODE_RECORD_LEN,
        decode_code(encode_code(code)) == Some(code),
{
    let b = encode_code(code);
    assert(b.subrange(1, b.len() as int) =~= code);
}

/// No record is empty, so a lookup that wrote no byte found no record.
pub proof fn law_no_record_is_empty(r: AccountRecordView, tag: u8, word: Seq<u8>, code: Seq<u8>)
    ensures
        encode_account(r).len() > 0,
        encode_word(tag, word).len() > 0,
        encode_code(code).len() > 0,
{
}

impl AccountRecord {
    /// The encoding of the record.
    pub fn encode(&self) -> (out: Vec<u8>)
        ensures
            out@ == encode_account(self@),
            out@.len() == ACCOUNT_RECORD_LEN,
    {
        let nonce = u64_to_be(self.nonce);
        let mut out: Vec<u8> = Vec::new();
        out.push(TAG_ACCOUNT);
        append_bytes(&mut out, nonce.as_slice());
        append_bytes(&mut out, self.balance.be_bytes.as_slice());
        append_bytes(&mut out, self.code_hash.bytes.as_slice());
        append_bytes(&mut out, self.storage_root.bytes.as_slice());
        assert(out@ =~= encode_account(self@));
        out
    }

    /// The record that `bytes` stand for; `None` when they stand for none.
    pub fn decode(bytes: &[u8]) -> (out: Option<AccountRecord>)
        ensures
            match out {
                Some(r) => decode_account(bytes@) == Some(r@),
                None => decode_account(bytes@) is None,
            },
    {
        if bytes.len() != ACCOUNT_RECORD_LEN || bytes[0] != TAG_ACCOUNT {
            return None;
        }
        let r = AccountRecord {
            nonce: u64_from_be(bytes, 1),
            balance: U256 { be_bytes: read_array32(bytes, 9) },
            code_hash: B256 { bytes: read_array32(bytes, 41) },
            storage_root: B256 { bytes: read_array32(bytes, 73) },
        };
        Some(r)
    }
}

/// The encoding of a word of the given kind.
pub fn encode_word_record(tag: u8, word: &[u8; 32]) -> (out: Vec<u8>)
    ensures
        out@ == encode_word(tag, word@),
        out@.len() == WORD_RECORD_LEN,
{
    let mut out: Vec<u8> = Vec::new();
    out.push(tag);
    append_bytes(&mut out, word.as_slice());
    assert(out@ =~= encode_word(tag, word@));
    out
}

/// The word of the given kind that `bytes` stand for; `None` when they stand
/// for none.
pub fn decode_word_record(tag: u8, bytes: &[u8]) -> (out: Option<[u8; 32]>)
    ensures
        match out {
            Some(w) => decode_word(tag, bytes@) == Some(w@),
            None => decode_word(tag, bytes@) is None,
        },
{
    if bytes.len() != WORD_RECORD_LEN || bytes[0] != tag {
        return None;
    }
    Some(read_array32(bytes, 1))
}

/// The code of a contract: at most `MAX_CODE_LEN` bytes.
#[derive(Debug, PartialEq, Eq)]
pub struct Bytecode {
    bytes: Vec<u8>,
}

impl View for Bytecode {
    type V = Seq<u8>;

    closed spec fn view(&self) -> Seq<u8> {
        self.bytes@
    }
}

impl Clone for Bytecode {
    fn clone(&self) -> (copy: Bytecode)
        ensures
            copy@ == self@,
    {
        proof {
            use_type_invariant(self);
        }
        let n: usize = self.bytes.len();
        let bytes = copy_range(self.bytes.as_slice(), 0, n);
        assert(bytes@ =~= self.bytes@);
        Bytecode { bytes }
    }
}

impl Bytecode {
    #[verifier::type_invariant]
    spec fn within_limit(self) -> bool {
        self.bytes@.len() <= MAX_CODE_LEN
    }

    /// The code made of `bytes`; `None` when there are more than
    /// `MAX_CODE_LEN` of them.
    pub fn new(bytes: Vec<u8>) -> (out: Option<Bytecode>)
        ensures
            match out {
                Some(c) => bytes@.len() <= MAX_CODE_LEN && c@ == bytes@,
                None => bytes@.len() > MAX_CODE_LEN,
            },
    {
        if bytes.len() > MAX_CODE_LEN {
            None
        } else {
            Some(Bytecode { bytes })
        }
    }

    /// Number of bytes of the code.
    pub fn len(&self) -> (n: usize)
        ensures
            n == self@.len(),
            n <= MAX_CODE_LEN,
    {
        proof {
            use_type_invariant(self);
        }
        self.bytes.len()
    }

    /// The bytes of the code.
    pub fn as_bytes(&self) -> (bytes: &[u8])
        ensures
            bytes@ == self@,
            bytes@.len() <= MAX_CODE_LEN,
    {
        proof {
            use_type_invariant(self);
        }
        self.bytes.as_slice()
    }

    /// The encoding of the code.
    pub fn encode(&self) -> (out: Vec<u8>)
        ensures
            out@ == encode_code(self@),
            self@.len() <= MAX_CODE_LEN,
    {
        proof {
            use_type_invariant(self);
        }
        let mut out: Vec<u8> = Vec::new();
        out.push(TAG_CODE);
        append_bytes(&mut out, self.bytes.as_slice());
        assert(out@ =~= encode_code(self@));
        out
    }

    /// The code that `bytes` stand for; `None` when they stand for none.
    pub fn decode(bytes: &[u8]) -> (out: Option<Bytecode>)
        ensures
            match out {
                Some(c) => decode_code(bytes@) == Some(c@),
                None => decode_code(bytes@) is None,
            },
    {
        if bytes.len() < 1 || bytes.len() > MAX_CODE_RECORD_LEN || bytes[0] != TAG_CODE {
            return None;
        }
        Some(Bytecode { bytes: copy_range(bytes, 1, bytes.len() - 1) })
    }
}

} // verus!
