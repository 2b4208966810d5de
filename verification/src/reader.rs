//! Reading the store as it was at one height.
//!
//! A reader is pinned to a height when it is made and never moves. For each
//! kind of record it says what to ask the store for (the key, and how long
//! the buffer has to be) and what the store's answer means. The buffer is one
//! byte longer than the longest record of the kind, so that a value that is
//! too long is seen to be too long and is not cut to a record's length.

use vstd::prelude::*;
use crate::error::QmdbError;
use crate::bytes::bytes_eq;
use crate::hashing::{
    account_key, account_key_bytes, block_hash_key, block_hash_key_bytes, code_key,
    code_key_bytes, hash_key, keccak256_digest, key_of, storage_key, storage_key_bytes,
    StoreKey, StoreKeyView,
};
use crate::primitives::{Address, B256, U256};
use crate::record::{
    decode_account, decode_code, decode_word, decode_word_record, AccountRecord,
    AccountRecordView, Bytecode, TAG_BLOCK_HASH, TAG_STORAGE,
};
use crate::store::{lookup_bytes, EntryView, VersionedStore};

verus! {

/// Length of the buffer for the lookup of an account.
pub const ACCOUNT_BUF_LEN: usize = 106;

/// Length of the buffer for the lookup of a storage value or a block hash.
pub const WORD_BUF_LEN: usize = 34;

/// Length of the buffer for the lookup of a contract's code.
pub const CODE_BUF_LEN: usize = 24578;

/// Number of ancestors whose hashes a reader can see.
pub const BLOCK_HASH_HISTORY: u64 = 256;

/// What to ask the store for.
#[derive(Clone, Debug, PartialEq, Eq)]
pub struct ReadRequest {
    /// Height at which to look the key up.
    pub height: i64,
    /// The key.
    pub key: StoreKey,
    /// Length of the buffer to hand to the store.
    pub buf_len: usize,
}

/// What the answer to an account lookup means. No byte: there is no such
/// account. The encoding of a record: that record. Anything else: the bytes
/// cannot be read.
pub open spec fn account_result(found: Seq<u8>) -> Result<Option<AccountRecordView>, QmdbError> {
    if found.len() == 0 {
        Ok(None)
    } else {
        match decode_account(found) {
            Some(r) => Ok(Some(r)),
            None => Err(QmdbError::ReadError),
        }
    }
}

/// What the answer to a storage lookup means. No byte: the slot was never
/// written and holds zero. The encoding of a value: that value. Anything
/// else: the bytes cannot be read.
pub open spec fn storage_result(found: Seq<u8>) -> Result<Seq<u8>, QmdbError> {
    if found.len() == 0 {
        Ok(Seq::new(32, |i: int| 0u8))
    } else {
        match decode_word(TAG_STORAGE, found) {
            Some(w) => Ok(w),
            None => Err(QmdbError::ReadError),
        }
    }
}

/// What the answer to a lookup of the code with the hash `code_hash` means.
/// No byte: there is no such code. The encoding of code whose digest is
/// `code_hash`: that code. Anything else, the encoding of other code too: the
/// bytes cannot be read.
pub open spec fn code_result(found: Seq<u8>, code_hash: Seq<u8>) -> Result<Seq<u8>, QmdbError> {
    if found.len() == 0 {
        Err(QmdbError::NotFound)
    } else {
        match decode_code(found) {
            Some(c) => if keccak256_digest(c) == code_hash {
                Ok(c)
            } else {
                Err(QmdbError::ReadError)
            },
            None => Err(QmdbError::ReadError),
        }
    }
}

/// The bytes that a store wrote when it says that it wrote `n` bytes to
/// `buf`; `None` when it says that it wrote more than the buffer holds.
pub open spec fn written_bytes(buf: Seq<u8>, n: int) -> Option<Seq<u8>> {
    if 0 <= n <= buf.len() {
        Some(buf.subrange(0, n))
    } else {
        None
    }
}

/// What the answer to a block hash lookup means. No byte: the store holds no
/// hash for the block. The encoding of a hash: that hash. Anything else: the
/// bytes cannot be read.
pub open spec fn block_hash_result(found: Seq<u8>) -> Result<Seq<u8>, QmdbError> {
    if found.len() == 0 {
        Err(QmdbError::NotFound)
    } else {
        match decode_word(TAG_BLOCK_HASH, found) {
            Some(w) => Ok(w),
            None => Err(QmdbError::ReadError),
        }
    }
}

/// Whether a reader at `height` can see the hash of block `number`: the
/// block is an ancestor, and one of the nearest `BLOCK_HASH_HISTORY`.
pub open spec fn in_block_hash_window(height: int, number: int) -> bool {
    number < height && height - number <= BLOCK_HASH_HISTORY
}

/// The answer of the store to a lookup of `key` at `height`, as the reader
/// takes it from a buffer of `buf_len` bytes.
pub open spec fn answer(log: Seq<EntryView>, height: int, key: StoreKeyView, buf_len: int) -> Seq<
    u8,
> {
    lookup_bytes(log, height, key, buf_len)
}

/// The meaning of the first `n` bytes of `buf` as the answer to an account
/// lookup. A store that says it wrote more bytes than the buffer holds did
/// not answer: that is a read error.
pub fn decode_account_answer(buf: &[u8], n: usize) -> (out: Result<Option<AccountRecord>, QmdbError>)
    ensures
        written_bytes(buf@, n as int) is None ==> out == Err::<Option<AccountRecord>, QmdbError>(
            QmdbError::ReadError,
        ),
        written_bytes(buf@, n as int) matches Some(found) ==> match out {
            Ok(Some(r)) => account_result(found) == Ok::<Option<AccountRecordView>, QmdbError>(
                Some(r@),
            ),
            Ok(None) => account_result(found) == Ok::<Option<AccountRecordView>, QmdbError>(None),
            Err(e) => account_result(found) == Err::<Option<AccountRecordView>, QmdbError>(e),
        },
{
    if n > buf.len() {
        return Err(QmdbError::ReadError);
    }
    if n == 0 {
        return Ok(None);
    }
    let found = vstd::slice::slice_subrange(buf, 0, n);
    match AccountRecord::decode(found) {
        Some(r) => Ok(Some(r)),
        None => Err(QmdbError::ReadError),
    }
}

/// The meaning of the first `n` bytes of `buf` as the answer to a storage
/// lookup. A store that says it wrote more bytes than the buffer holds did
/// not answer: that is a read error.
pub fn decode_storage_answer(buf: &[u8], n: usize) -> (out: Result<U256, QmdbError>)
    ensures
        written_bytes(buf@, n as int) is None ==> out == Err::<U256, QmdbError>(
            QmdbError::ReadError,
        ),
        written_bytes(buf@, n as int) matches Some(found) ==> match out {
            Ok(v) => storage_result(found) == Ok::<Seq<u8>, QmdbError>(v@),
            Err(e) => storage_result(found) == Err::<Seq<u8>, QmdbError>(e),
        },
{
    if n > buf.len() {
        return Err(QmdbError::ReadError);
    }
    if n == 0 {
        return Ok(U256::zero());
    }
    let found = vstd::slice::slice_subrange(buf, 0, n);
    match decode_word_record(TAG_STORAGE, found) {
        Some(w) => Ok(U256 { be_bytes: w }),
        None => Err(QmdbError::ReadError),
    }
}

/// The meaning of the first `n` bytes of `buf` as the answer to a lookup of
/// the code with the hash `code_hash`. Code is handed out only when its
/// digest is the hash asked for. A store that says it wrote more bytes than
/// the buffer holds did not answer: that is a read error.
pub fn decode_code_answer(buf: &[u8], n: usize, code_hash: &B256) -> (out: Result<
    Bytecode,
    QmdbError,
>)
    ensures
        written_bytes(buf@, n as int) is None ==> out == Err::<Bytecode, QmdbError>(
            QmdbError::ReadError,
        ),
        written_bytes(buf@, n as int) matches Some(found) ==> match out {
            Ok(c) => code_result(found, code_hash@) == Ok::<Seq<u8>, QmdbError>(c@),
            Err(e) => code_result(found, code_hash@) == Err::<Seq<u8>, QmdbError>(e),
        },
        out matches Ok(c) ==> keccak256_digest(c@) == code_hash@,
{
    if n > buf.len() {
        return Err(QmdbError::ReadError);
    }
    if n == 0 {
        return Err(QmdbError::NotFound);
    }
    let found = vstd::slice::slice_subrange(buf, 0, n);
    match Bytecode::decode(found) {
        Some(c) => {
            let digest = hash_key(c.as_bytes());
            if bytes_eq(digest.bytes.as_slice(), code_hash.bytes.as_slice()) {
                Ok(c)
            } else {
                Err(QmdbError::ReadError)
            }
        },
        None => Err(QmdbError::ReadError),
    }
}

/// The meaning of the first `n` bytes of `buf` as the answer to a block hash
/// lookup. A store that says it wrote more bytes than the buffer holds did
/// not answer: that is a read error.
pub fn decode_block_hash_answer(buf: &[u8], n: usize) -> (out: Result<B256, QmdbError>)
    ensures
        written_bytes(buf@, n as int) is None ==> out == Err::<B256, QmdbError>(
            QmdbError::ReadError,
        ),
        written_bytes(buf@, n as int) matches Some(found) ==> match out {
            Ok(h) => block_hash_result(found) == Ok::<Seq<u8>, QmdbError>(h@),
            Err(e) => block_hash_result(found) == Err::<Seq<u8>, QmdbError>(e),
        },
{
    if n > buf.len() {
        return Err(QmdbError::ReadError);
    }
    if n == 0 {
        return Err(QmdbError::NotFound);
    }
    let found = vstd::slice::slice_subrange(buf, 0, n);
    match decode_word_record(TAG_BLOCK_HASH, found) {
        Some(w) => Ok(B256 { bytes: w }),
        None => Err(QmdbError::ReadError),
    }
}

/// A buffer of `len` zero bytes.
pub fn zeroed(len: usize) -> (buf: Vec<u8>)
    ensures
        buf@ == Seq::new(len as nat, |i: int| 0u8),
{
    let mut buf: Vec<u8> = Vec::new();
    let mut i: usize = 0;
    while i < len
        invariant
            i <= len,
            buf@.len() == i,
            forall|k: int| 0 <= k < i ==> buf@[k] == 0u8,
        decreases len - i,
    {
        buf.push(0u8);
        i = i + 1;
    }
    assert(buf@ =~= Seq::new(len as nat, |i: int| 0u8));
    buf
}

/// A view of the store as it was at one height.
#[derive(Clone, Copy, Debug, PartialEq, Eq, Structural)]
pub struct SnapshotReader {
    height: i64,
}

impl SnapshotReader {
    /// The height that the reader is pinned to.
    pub closed spec fn spec_height(&self) -> int {
        self.height as int
    }

    /// A reader pinned to `height`.
    pub fn at(height: i64) -> (reader: SnapshotReader)
        ensures
            reader.spec_height() == height,
    {
        SnapshotReader { height }
    }

    /// The height that the reader is pinned to.
    pub fn height(&self) -> (h: i64)
        ensures
            h == self.spec_height(),
    {
        self.height
    }

    /// What to ask the store for to read the account at `address`.
    pub fn account_request(&self, address: &Address) -> (req: ReadRequest)
        ensures
            req.height == self.spec_height(),
            req.key@ == key_of(account_key_bytes(address@)),
            req.buf_len == ACCOUNT_BUF_LEN,
    {
        ReadRequest { height: self.height, key: account_key(address), buf_len: ACCOUNT_BUF_LEN }
    }

    /// What to ask the store for to read slot `index` of the account at
    /// `address`.
    pub fn storage_request(&self, address: &Address, index: &U256) -> (req: ReadRequest)
        ensures
            req.height == self.spec_height(),
            req.key@ == key_of(storage_key_bytes(address@, index@)),
            req.buf_len == WORD_BUF_LEN,
    {
        ReadRequest { height: self.height, key: storage_key(address, index), buf_len: WORD_BUF_LEN }
    }

    /// What to ask the store for to read the code with hash `code_hash`.
    pub fn code_request(&self, code_hash: &B256) -> (req: ReadRequest)
        ensures
            req.height == self.spec_height(),
            req.key@ == key_of(code_key_bytes(code_hash@)),
            req.buf_len == CODE_BUF_LEN,
    {
        ReadRequest { height: self.height, key: code_key(code_hash), buf_len: CODE_BUF_LEN }
    }

    /// What to ask the store for to read the hash of block `number`; `None`
    /// when the reader cannot see that block.
    pub fn block_hash_request(&self, number: u64) -> (req: Option<ReadRequest>)
        ensures
            match req {
                Some(r) => {
                    &&& in_block_hash_window(self.spec_height(), number as int)
                    &&& r.height == self.spec_height()
                    &&& r.key@ == key_of(block_hash_key_bytes(number))
                    &&& r.buf_len == WORD_BUF_LEN
                },
                None => !in_block_hash_window(self.spec_height(), number as int),
            },
    {
        if self.height <= 0 {
            return None;
        }
        let height: u64 = self.height as u64;
        if number >= height || height - number > BLOCK_HASH_HISTORY {
            return None;
        }
        Some(
            ReadRequest { height: self.height, key: block_hash_key(number), buf_len: WORD_BUF_LEN },
        )
    }

    /// The account at `address` as `store` held it at the reader's height:
    /// `None` when it was never written or was deleted.
    pub fn basic(&self, store: &VersionedStore, address: &Address) -> (out: Result<
        Option<AccountRecord>,
        QmdbError,
    >)
        ensures
            match out {
                Ok(Some(r)) => account_result(
                    answer(
                        store.log(),
                        self.spec_height(),
                        key_of(account_key_bytes(address@)),
                        ACCOUNT_BUF_LEN as int,
                    ),
                ) == Ok::<Option<AccountRecordView>, QmdbError>(Some(r@)),
                Ok(None) => account_result(
                    answer(
                        store.log(),
                        self.spec_height(),
                        key_of(account_key_bytes(address@)),
                        ACCOUNT_BUF_LEN as int,
                    ),
                ) == Ok::<Option<AccountRecordView>, QmdbError>(None),
                Err(e) => account_result(
                    answer(
                        store.log(),
                        self.spec_height(),
                        key_of(account_key_bytes(address@)),
                        ACCOUNT_BUF_LEN as int,
                    ),
                ) == Err::<Option<AccountRecordView>, QmdbError>(e),
            },
    {
        let req = self.account_request(address);
        let mut buf = zeroed(req.buf_len);
        let n = store.read_entry(req.height, &req.key.hash, req.key.bytes.as_slice(), &mut buf);
        decode_account_answer(buf.as_slice(), n)
    }

    /// The value of slot `index` of the account at `address` as `store` held
    /// it at the reader's height: zero when the slot was never written.
    pub fn storage(&self, store: &VersionedStore, address: &Address, index: &U256) -> (out: Result<
        U256,
        QmdbError,
    >)
        ensures
            match out {
                Ok(v) => storage_result(
                    answer(
                        store.log(),
                        self.spec_height(),
                        key_of(storage_key_bytes(address@, index@)),
                        WORD_BUF_LEN as int,
                    ),
                ) == Ok::<Seq<u8>, QmdbError>(v@),
                Err(e) => storage_result(
                    answer(
                        store.log(),
                        self.spec_height(),
                        key_of(storage_key_bytes(address@, index@)),
                        WORD_BUF_LEN as int,
                    ),
                ) == Err::<Seq<u8>, QmdbError>(e),
            },
    {
        let req = self.storage_request(address, index);
        let mut buf = zeroed(req.buf_len);
        let n = store.read_entry(req.height, &req.key.hash, req.key.bytes.as_slice(), &mut buf);
        decode_storage_answer(buf.as_slice(), n)
    }

    /// The code with hash `code_hash` as `store` held it at the reader's
    /// height. What is handed out is code whose digest is `code_hash`; other
    /// code under that key is a read error.
    pub fn code_by_hash(&self, store: &VersionedStore, code_hash: &B256) -> (out: Result<
        Bytecode,
        QmdbError,
    >)
        ensures
            match out {
                Ok(c) => code_result(
                    answer(
                        store.log(),
                        self.spec_height(),
                        key_of(code_key_bytes(code_hash@)),
                        CODE_BUF_LEN as int,
                    ),
                    code_hash@,
                ) == Ok::<Seq<u8>, QmdbError>(c@),
                Err(e) => code_result(
                    answer(
                        store.log(),
                        self.spec_height(),
                        key_of(code_key_bytes(code_hash@)),
                        CODE_BUF_LEN as int,
                    ),
                    code_hash@,
                ) == Err::<Seq<u8>, QmdbError>(e),
            },
            out matches Ok(c) ==> keccak256_digest(c@) == code_hash@,
    {
        let req = self.code_request(code_hash);
        let mut buf = zeroed(req.buf_len);
        let n = store.read_entry(req.height, &req.key.hash, req.key.bytes.as_slice(), &mut buf);
        decode_code_answer(buf.as_slice(), n, code_hash)
    }

    /// The hash of block `number` as `store` held it at the reader's height.
    /// `NotFound` when the reader cannot see that block, or the store holds
    /// no hash for it.
    pub fn block_hash(&self, store: &VersionedStore, number: u64) -> (out: Result<B256, QmdbError>)
        ensures
            !in_block_hash_window(self.spec_height(), number as int) ==> out == Err::<
                B256,
                QmdbError,
            >(QmdbError::NotFound),
            in_block_hash_window(self.spec_height(), number as int) ==> match out {
                Ok(h) => block_hash_result(
                    answer(
                        store.log(),
                        self.spec_height(),
                        key_of(block_hash_key_bytes(number)),
                        WORD_BUF_LEN as int,
                    ),
                ) == Ok::<Seq<u8>, QmdbError>(h@),
                Err(e) => block_hash_result(
                    answer(
                        store.log(),
                        self.spec_height(),
                        key_of(block_hash_key_bytes(number)),
                        WORD_BUF_LEN as int,
                    ),
                ) == Err::<Seq<u8>, QmdbError>(e),
            },
    {
        match self.block_hash_request(number) {
            None => Err(QmdbError::NotFound),
            Some(req) => {
                let mut buf = zeroed(req.buf_len);
                let n = store.read_entry(
                    req.height,
                    &req.key.hash,
                    req.key.bytes.as_slice(),
                    &mut buf,
                );
                decode_block_hash_answer(buf.as_slice(), n)
            },
        }
    }
}

} // verus!
