//! Hash addressing: from an address, a storage slot, a code hash or a block
//! number to the key under which the store holds its record.
//!
//! A key is the pair of the key bytes and their Keccak-256 digest. The raw
//! address is not used as the digest: storage slots, whose key bytes are 52
//! bytes long, need a digest anyway, and one rule for every kind of record
//! keeps the keys of the store uniformly distributed. The digest depends on
//! the key bytes alone, so it is the same in every process.

use vstd::prelude::*;
use crate::bytes::append_bytes;
use crate::primitives::{u64_be_bytes, u64_to_be, Address, B256, U256};

verus! {

/// The Keccak-256 digest of a byte string.
pub uninterp spec fn keccak256_digest(bytes: Seq<u8>) -> Seq<u8>;

/// Calls `alloy_primitives::keccak256`, which computes the Keccak-256 digest
/// of the bytes it is given. The contract gives that digest its name; that it
/// is 32 bytes long follows from the type.
#[verifier::external_body]
fn keccak256(bytes: &[u8]) -> (digest: [u8; 32])
    ensures
        digest@ == keccak256_digest(bytes@),
{
    alloy_primitives::keccak256(bytes).0
}

/// The key of one record in the store.
#[derive(Clone, Debug, PartialEq, Eq)]
pub struct StoreKey {
    /// Digest of `bytes`.
    pub hash: B256,
    /// The key bytes.
    pub bytes: Vec<u8>,
}

/// What a `StoreKey` holds.
pub struct StoreKeyView {
    pub hash: Seq<u8>,
    pub bytes: Seq<u8>,
}

impl View for StoreKey {
    type V = StoreKeyView;

    open spec fn view(&self) -> StoreKeyView {
        StoreKeyView { hash: self.hash@, bytes: self.bytes@ }
    }
}

/// The key with the given key bytes.
pub open spec fn key_of(bytes: Seq<u8>) -> StoreKeyView {
    StoreKeyView { hash: keccak256_digest(bytes), bytes }
}

/// Key bytes of an account: its address.
pub open spec fn account_key_bytes(address: Seq<u8>) -> Seq<u8> {
    address
}

/// Key bytes of a storage slot: the address, then the slot index.
pub open spec fn storage_key_bytes(address: Seq<u8>, slot: Seq<u8>) -> Seq<u8> {
    address + slot
}

/// Key bytes of a contract's code: its code hash.
pub open spec fn code_key_bytes(code_hash: Seq<u8>) -> Seq<u8> {
    code_hash
}

/// Key bytes of a block hash: the block number, big-endian.
pub open spec fn block_hash_key_bytes(number: u64) -> Seq<u8> {
    u64_be_bytes(number)
}

/// The digest under which the store files the key bytes.
pub fn hash_key(bytes: &[u8]) -> (hash: B256)
    ensures
        hash@ == keccak256_digest(bytes@),
{
    B256 { bytes: keccak256(bytes) }
}

/// The digest of an address.
pub fn hash_address(address: &Address) -> (hash: B256)
    ensures
        hash@ == keccak256_digest(address@),
{
    hash_key(address.bytes.as_slice())
}

/// The key of the account at `address`.
pub fn account_key(address: &Address) -> (key: StoreKey)
    ensures
        key@ == key_of(account_key_bytes(address@)),
{
    let mut bytes: Vec<u8> = Vec::new();
    append_bytes(&mut bytes, address.bytes.as_slice());
    assert(bytes@ =~= address@);
    StoreKey { hash: hash_key(bytes.as_slice()), bytes }
}

/// The key of storage slot `slot` of the account at `address`.
pub fn storage_key(address: &Address, slot: &U256) -> (key: StoreKey)
    ensures
        key@ == key_of(storage_key_bytes(address@, slot@)),
{
    let mut bytes: Vec<u8> = Vec::new();
    append_bytes(&mut bytes, address.bytes.as_slice());
    append_bytes(&mut bytes, slot.be_bytes.as_slice());
    assert(bytes@ =~= address@ + slot@);
    StoreKey { hash: hash_key(bytes.as_slice()), bytes }
}

/// The key of the code whose hash is `code_hash`.
pub fn code_key(code_hash: &B256) -> (key: StoreKey)
    ensures
        key@ == key_of(code_key_bytes(code_hash@)),
{
    let mut bytes: Vec<u8> = Vec::new();
    append_bytes(&mut bytes, code_hash.bytes.as_slice());
    assert(bytes@ =~= code_hash@);
    StoreKey { hash: hash_key(bytes.as_slice()), bytes }
}

/// The key of the hash of block `number`.
pub fn block_hash_key(number: u64) -> (key: StoreKey)
    ensures
        key@ == key_of(block_hash_key_bytes(number)),
{
    let be = u64_to_be(number);
    let mut bytes: Vec<u8> = Vec::new();
    append_bytes(&mut bytes, be.as_slice());
    assert(bytes@ =~= u64_be_bytes(number));
    StoreKey { hash: hash_key(bytes.as_slice()), bytes }
}

/// Two accounts with the same key are the same account: whatever the
/// digests are, the key holds the address itself.
pub proof fn law_account_keys_are_injective(a1: Address, a2: Address)
    requires
        key_of(account_key_bytes(a1@)) == key_of(account_key_bytes(a2@)),
    ensures
        a1@ == a2@,
{
}

/// Two storage slots with the same key bytes are the same slot of the same
/// account.
pub proof fn law_storage_keys_are_injective(a1: Address, s1: U256, a2: Address, s2: U256)
    requires
        storage_key_bytes(a1@, s1@) == storage_key_bytes(a2@, s2@),
    ensures
        a1@ == a2@,
        s1@ == s2@,
{
    let k1 = storage_key_bytes(a1@, s1@);
    let k2 = storage_key_bytes(a2@, s2@);
    assert(a1@ =~= k1.subrange(0, 20));
    assert(a2@ =~= k2.subrange(0, 20));
    assert(s1@ =~= k1.subrange(20, 52));
    assert(s2@ =~= k2.subrange(20, 52));
}

/// Records of different kinds never share key bytes: the four kinds have key
/// bytes of four different lengths.
pub proof fn law_key_kinds_have_different_lengths(address: Address, slot: U256, code_hash: B256, number: u64)
    ensures
        account_key_bytes(address@).len() == 20,
        storage_key_bytes(address@, slot@).len() == 52,
        code_key_bytes(code_hash@).len() == 32,
        block_hash_key_bytes(number).len() == 8,
{
}

} // verus!
