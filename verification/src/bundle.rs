//! The accounts that the execution engine's bundle of state changes holds.

use vstd::prelude::*;
use revm::database::{BundleState, OriginalValuesKnown};
use crate::primitives::{Address, B256, U256};
use crate::record::{AccountRecord, AccountRecordView};
use crate::writer::{
    addresses_wf, changes_view, distinct_change_addresses, law_given_order_does_not_matter,
    sort_by_address, AccountChange, AccountChangeView,
};

verus! {

/// `revm::database::BundleState`, the execution engine's bundle of state
/// changes. It is declared so that it can stand in signatures and fields;
/// nothing is known of what a value of it holds.
#[verifier::external_type_specification]
#[verifier::external_body]
pub struct ExBundleState(BundleState);

/// An account as a bundle holds it: without its code, and without a storage
/// root, which the engine does not keep.
#[derive(Clone, Copy, Debug, PartialEq, Eq)]
pub struct PlainInfo {
    pub nonce: u64,
    pub balance: U256,
    pub code_hash: B256,
}

/// One changed account of a bundle.
#[derive(Clone, Copy, Debug, PartialEq, Eq)]
pub struct PlainAccount {
    pub address: Address,
    pub info: Option<PlainInfo>,
}

/// No two of the accounts have the same address.
pub open spec fn distinct_addresses(accounts: Seq<PlainAccount>) -> bool {
    forall|i: int, j: int|
        0 <= i < j < accounts.len() ==> accounts[i].address@ != accounts[j].address@
}

/// The accounts whose information a bundle changed, each with what the
/// bundle holds of it now.
pub uninterp spec fn changed_accounts(bundle: BundleState) -> Set<PlainAccount>;

/// Calls `BundleState::to_plain_state` with `OriginalValuesKnown::Yes` and
/// hands out the accounts of the changeset it returns, each with its fields
/// as plain values. The bundle keeps its accounts in a map keyed by address
/// and walks that map once: the contract says that no address comes twice,
/// and gives the accounts that come a name as a set. The order in which they
/// come is that of the map, and the contract says nothing of it.
#[verifier::external_body]
pub(crate) fn plain_accounts(bundle: &BundleState) -> (accounts: Vec<PlainAccount>)
    ensures
        distinct_addresses(accounts@),
        accounts@.to_set() == changed_accounts(*bundle),
{
    let changeset = bundle.to_plain_state(OriginalValuesKnown::Yes);
    changeset.accounts.into_iter().map(|(address, info)| PlainAccount {
        address: Address { bytes: address.into_array() },
        info: info.map(|i| PlainInfo {
            nonce: i.nonce,
            balance: U256 { be_bytes: i.balance.to_be_bytes::<32>() },
            code_hash: B256 { bytes: i.code_hash.0 },
        }),
    }).collect()
}

/// The change that an account of a bundle asks for. The record's storage
/// root is zero: a bundle knows none.
pub open spec fn change_of(account: PlainAccount) -> AccountChangeView {
    AccountChangeView {
        address: account.address@,
        info: match account.info {
            Some(i) => Some(
                AccountRecordView {
                    nonce: i.nonce,
                    balance: i.balance@,
                    code_hash: i.code_hash@,
                    storage_root: Seq::new(32, |k: int| 0u8),
                },
            ),
            None => None,
        },
    }
}

/// The changes that the accounts of a bundle ask for, in their order.
pub open spec fn changes_of(accounts: Seq<PlainAccount>) -> Seq<AccountChangeView> {
    Seq::new(accounts.len(), |i: int| change_of(accounts[i]))
}

/// Whether `accounts` holds each account of `set` once, and no other.
pub open spec fn lists(accounts: Seq<PlainAccount>, set: Set<PlainAccount>) -> bool {
    distinct_addresses(accounts) && accounts.to_set() == set
}

/// The changes that the accounts of `set` ask for, in the order of their
/// addresses. The set has to be one of accounts of different addresses.
pub open spec fn changes_in_address_order(set: Set<PlainAccount>) -> Seq<AccountChangeView> {
    sort_by_address(changes_of(choose|accounts: Seq<PlainAccount>| lists(accounts, set)))
}

/// In whatever order a set of accounts of different addresses is listed,
/// sorting the changes that they ask for gives one and the same sequence.
pub proof fn law_listing_order_does_not_matter(accounts: Seq<PlainAccount>, set: Set<PlainAccount>)
    requires
        lists(accounts, set),
    ensures
        sort_by_address(changes_of(accounts)) == changes_in_address_order(set),
{
    let chosen = choose|other: Seq<PlainAccount>| lists(other, set);
    assert(lists(chosen, set));
    let a = changes_of(accounts);
    let b = changes_of(chosen);
    lemma_changes_of(accounts);
    lemma_changes_of(chosen);
    assert forall|e: AccountChangeView|
        #![trigger a.contains(e)]
        #![trigger b.contains(e)]
        a.contains(e) <==> b.contains(e) by {
        if a.contains(e) {
            let i = choose|i: int| 0 <= i < a.len() && a[i] == e;
            assert(accounts.contains(accounts[i]));
            assert(accounts.to_set().contains(accounts[i]));
            assert(chosen.to_set().contains(accounts[i]));
            let j = choose|j: int| 0 <= j < chosen.len() && chosen[j] == accounts[i];
            assert(b[j] == e);
        }
        if b.contains(e) {
            let i = choose|i: int| 0 <= i < b.len() && b[i] == e;
            assert(chosen.contains(chosen[i]));
            assert(chosen.to_set().contains(chosen[i]));
            assert(accounts.to_set().contains(chosen[i]));
            let j = choose|j: int| 0 <= j < accounts.len() && accounts[j] == chosen[i];
            assert(a[j] == e);
        }
    }
    law_given_order_does_not_matter(a, b);
}

/// The changes of accounts of different addresses are of different
/// addresses, each 20 bytes long.
proof fn lemma_changes_of(accounts: Seq<PlainAccount>)
    requires
        distinct_addresses(accounts),
    ensures
        distinct_change_addresses(changes_of(accounts)),
        addresses_wf(changes_of(accounts)),
{
    let changes = changes_of(accounts);
    assert forall|i: int, j: int| 0 <= i < j < changes.len() implies changes[i].address
        != changes[j].address by {
        assert(changes[i].address == accounts[i].address@);
        assert(changes[j].address == accounts[j].address@);
    }
    assert forall|i: int| 0 <= i < changes.len() implies (#[trigger] changes[i]).address.len()
        == 20 by {
        assert(changes[i].address == accounts[i].address@);
    }
}

/// The changes that the accounts ask for, in their order.
pub fn account_changes(accounts: &Vec<PlainAccount>) -> (changes: Vec<AccountChange>)
    ensures
        changes_view(changes@) == changes_of(accounts@),
{
    let n: usize = accounts.len();
    let mut changes: Vec<AccountChange> = Vec::new();
    let mut i: usize = 0;
    while i < n
        invariant
            n == accounts@.len(),
            i <= n,
            changes@.len() == i,
            forall|k: int| 0 <= k < i ==> changes@[k]@ == change_of(accounts@[k]),
        decreases n - i,
    {
        let account = accounts[i];
        let info = match account.info {
            Some(p) => Some(
                AccountRecord {
                    nonce: p.nonce,
                    balance: p.balance,
                    code_hash: p.code_hash,
                    storage_root: B256::zero(),
                },
            ),
            None => None,
        };
        changes.push(AccountChange { address: account.address, info });
        i = i + 1;
    }
    assert(changes_view(changes@) =~= changes_of(accounts@));
    changes
}

} // verus!
