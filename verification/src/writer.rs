//! From a state diff to the writes that the store has to make.
//!
//! An account that a diff holds with a record is written under the key of its
//! address; an account that a diff holds without one is marked as deleted
//! under that key. The writes of the accounts of a diff come in the order of
//! their addresses, so that one diff always gives one sequence of writes.

use vstd::prelude::*;
use crate::bytes::{
    array20_le, lemma_lex_le_transitive, lemma_lex_lt_irreflexive, lemma_lex_lt_transitive,
    lemma_lex_total, lex_le, lex_lt,
};
use crate::hashing::{
    account_key, account_key_bytes, block_hash_key, block_hash_key_bytes, code_key,
    code_key_bytes, hash_key, keccak256_digest, key_of, storage_key, storage_key_bytes,
};
use crate::primitives::{Address, B256, U256};
use crate::record::{
    encode_account, encode_code, encode_word, encode_word_record, AccountRecord,
    AccountRecordView, Bytecode, TAG_BLOCK_HASH, TAG_STORAGE,
};
use crate::store::{Mutation, MutationView};

verus! {

/// One account of a diff: its address, and its record after the block, or
/// `None` when the block destroyed it.
#[derive(Clone, Copy, Debug, PartialEq, Eq)]
pub struct AccountChange {
    pub address: Address,
    pub info: Option<AccountRecord>,
}

/// What an `AccountChange` holds.
pub struct AccountChangeView {
    pub address: Seq<u8>,
    pub info: Option<AccountRecordView>,
}

impl View for AccountChange {
    type V = AccountChangeView;

    open spec fn view(&self) -> AccountChangeView {
        AccountChangeView {
            address: self.address@,
            info: match self.info {
                Some(r) => Some(r@),
                None => None,
            },
        }
    }
}

/// The changes of a diff.
pub open spec fn changes_view(changes: Seq<AccountChange>) -> Seq<AccountChangeView> {
    Seq::new(changes.len(), |i: int| changes[i]@)
}

/// The write that an account change asks for.
pub open spec fn account_mutation(change: AccountChangeView) -> MutationView {
    MutationView {
        key: key_of(account_key_bytes(change.address)),
        value: match change.info {
            Some(r) => Some(encode_account(r)),
            None => None,
        },
    }
}

/// The writes that the changes ask for, in the order of the changes.
pub open spec fn account_mutations(changes: Seq<AccountChangeView>) -> Seq<MutationView> {
    Seq::new(changes.len(), |i: int| account_mutation(changes[i]))
}

/// The write that sets a storage slot.
pub open spec fn storage_mutation(address: Seq<u8>, index: Seq<u8>, value: Seq<u8>) -> MutationView {
    MutationView {
        key: key_of(storage_key_bytes(address, index)),
        value: Some(encode_word(TAG_STORAGE, value)),
    }
}

/// The write that stores a contract's code: under the digest of the code,
/// which is its code hash.
pub open spec fn code_mutation(code: Seq<u8>) -> MutationView {
    MutationView {
        key: key_of(code_key_bytes(keccak256_digest(code))),
        value: Some(encode_code(code)),
    }
}

/// The write that stores the hash of a block.
pub open spec fn block_hash_mutation(number: u64, hash: Seq<u8>) -> MutationView {
    MutationView {
        key: key_of(block_hash_key_bytes(number)),
        value: Some(encode_word(TAG_BLOCK_HASH, hash)),
    }
}

/// The write that `change` asks for.
pub fn mutation_of_change(change: &AccountChange) -> (m: Mutation)
    ensures
        m@ == account_mutation(change@),
{
    let value = match &change.info {
        Some(r) => Some(r.encode()),
        None => None,
    };
    Mutation { key: account_key(&change.address), value }
}

/// The write that sets slot `index` of the account at `address` to `value`.
pub fn mutation_of_storage(address: &Address, index: &U256, value: &U256) -> (m: Mutation)
    ensures
        m@ == storage_mutation(address@, index@, value@),
{
    Mutation {
        key: storage_key(address, index),
        value: Some(encode_word_record(TAG_STORAGE, &value.be_bytes)),
    }
}

/// The write that stores `code` under its code hash.
pub fn mutation_of_code(code: &Bytecode) -> (m: Mutation)
    ensures
        m@ == code_mutation(code@),
{
    let code_hash = hash_key(code.as_bytes());
    Mutation { key: code_key(&code_hash), value: Some(code.encode()) }
}

/// The write that stores `hash` as the hash of block `number`.
pub fn mutation_of_block_hash(number: u64, hash: &B256) -> (m: Mutation)
    ensures
        m@ == block_hash_mutation(number, hash@),
{
    Mutation {
        key: block_hash_key(number),
        value: Some(encode_word_record(TAG_BLOCK_HASH, &hash.bytes)),
    }
}

/// Whether the changes come in the order of their addresses.
pub open spec fn sorted_by_address(s: Seq<AccountChangeView>) -> bool {
    forall|i: int, j: int| 0 <= i <= j < s.len() ==> lex_le(s[i].address, s[j].address)
}

/// `sorted` with `x` put in behind the last change whose address is not
/// above that of `x`.
pub open spec fn insert_change(sorted: Seq<AccountChangeView>, x: AccountChangeView) -> Seq<
    AccountChangeView,
>
    decreases sorted.len(),
{
    if sorted.len() == 0 {
        seq![x]
    } else if lex_le(sorted.last().address, x.address) {
        sorted.push(x)
    } else {
        insert_change(sorted.drop_last(), x).push(sorted.last())
    }
}

/// The changes in the order of their addresses; changes of one address keep
/// the order they came in.
pub open spec fn sort_by_address(s: Seq<AccountChangeView>) -> Seq<AccountChangeView>
    decreases s.len(),
{
    if s.len() == 0 {
        Seq::empty()
    } else {
        insert_change(sort_by_address(s.drop_last()), s.last())
    }
}

/// Putting a change into sorted changes keeps them sorted and adds that
/// change and no other.
pub proof fn lemma_insert_change(sorted: Seq<AccountChangeView>, x: AccountChangeView)
    requires
        sorted_by_address(sorted),
        x.address.len() == 20,
        forall|i: int| 0 <= i < sorted.len() ==> (#[trigger] sorted[i]).address.len() == 20,
    ensures
        sorted_by_address(insert_change(sorted, x)),
        insert_change(sorted, x).to_multiset() == sorted.to_multiset().insert(x),
        insert_change(sorted, x).len() == sorted.len() + 1,
    decreases sorted.len(),
{
    broadcast use vstd::seq_lib::group_to_multiset_ensures;

    let out = insert_change(sorted, x);
    if sorted.len() == 0 {
        assert(sorted =~= Seq::empty());
        assert(out =~= Seq::<AccountChangeView>::empty().push(x));
    } else if lex_le(sorted.last().address, x.address) {
        assert forall|i: int, j: int| 0 <= i <= j < out.len() implies lex_le(
            out[i].address,
            out[j].address,
        ) by {
            if j == sorted.len() && i < sorted.len() {
                lemma_lex_le_transitive(sorted[i].address, sorted.last().address, x.address);
            }
        }
    } else {
        let rest = sorted.drop_last();
        let last = sorted.last();
        lemma_insert_change(rest, x);
        let inner = insert_change(rest, x);
        lemma_lex_total(last.address, x.address);
        assert forall|i: int, j: int| 0 <= i <= j < out.len() implies lex_le(
            out[i].address,
            out[j].address,
        ) by {
            if j == inner.len() && i < inner.len() {
                assert(inner.to_multiset().count(inner[i]) > 0);
                if inner[i] == x {
                } else {
                    assert(rest.to_multiset().count(inner[i]) > 0);
                    assert(rest.contains(inner[i]));
                    let k = choose|k: int| 0 <= k < rest.len() && rest[k] == inner[i];
                    assert(sorted[k] == inner[i]);
                }
            }
        }
        assert(sorted =~= rest.push(last));
        assert(out.to_multiset() =~= sorted.to_multiset().insert(x));
    }
}

/// The sorted changes are sorted, and are the given changes in another
/// order.
pub proof fn law_sorting_reorders_only(s: Seq<AccountChangeView>)
    requires
        forall|i: int| 0 <= i < s.len() ==> (#[trigger] s[i]).address.len() == 20,
    ensures
        sorted_by_address(sort_by_address(s)),
        sort_by_address(s).to_multiset() == s.to_multiset(),
        sort_by_address(s).len() == s.len(),
    decreases s.len(),
{
    broadcast use vstd::seq_lib::group_to_multiset_ensures;

    if s.len() == 0 {
        assert(s =~= Seq::empty());
    } else {
        let rest = s.drop_last();
        law_sorting_reorders_only(rest);
        let sorted = sort_by_address(rest);
        assert forall|i: int| 0 <= i < sorted.len() implies (#[trigger] sorted[i]).address.len()
            == 20 by {
            assert(sorted.to_multiset().count(sorted[i]) > 0);
            assert(rest.contains(sorted[i]));
        }
        lemma_insert_change(sorted, s.last());
        assert(s =~= rest.push(s.last()));
    }
}

/// Whether no two of the changes are of one address.
pub open spec fn distinct_change_addresses(s: Seq<AccountChangeView>) -> bool {
    forall|i: int, j: int| 0 <= i < j < s.len() ==> s[i].address != s[j].address
}

/// Whether the address of each change comes before that of the next.
pub open spec fn strictly_sorted(s: Seq<AccountChangeView>) -> bool {
    forall|i: int, j: int| 0 <= i < j < s.len() ==> lex_lt(s[i].address, s[j].address)
}

/// Whether every address is 20 bytes long.
pub open spec fn addresses_wf(s: Seq<AccountChangeView>) -> bool {
    forall|i: int| 0 <= i < s.len() ==> (#[trigger] s[i]).address.len() == 20
}

/// Putting a change of a new address into strictly sorted changes keeps
/// them strictly sorted, and the result holds that change and the others.
proof fn lemma_insert_fresh(sorted: Seq<AccountChangeView>, x: AccountChangeView)
    requires
        strictly_sorted(sorted),
        addresses_wf(sorted),
        x.address.len() == 20,
        forall|i: int| 0 <= i < sorted.len() ==> (#[trigger] sorted[i]).address != x.address,
    ensures
        strictly_sorted(insert_change(sorted, x)),
        addresses_wf(insert_change(sorted, x)),
        forall|e: AccountChangeView|
            #![trigger insert_change(sorted, x).contains(e)]
            #![trigger sorted.contains(e)]
            insert_change(sorted, x).contains(e) <==> (e == x || sorted.contains(e)),
    decreases sorted.len(),
{
    let out = insert_change(sorted, x);
    if sorted.len() == 0 {
        assert forall|e: AccountChangeView| out.contains(e) <==> (e == x || sorted.contains(
            e,
        )) by {
            if out.contains(e) {
                let k = choose|k: int| 0 <= k < out.len() && out[k] == e;
            }
            if e == x {
                assert(out[0] == x);
            }
        }
    } else if lex_le(sorted.last().address, x.address) {
        assert forall|i: int, j: int| 0 <= i < j < out.len() implies lex_lt(
            out[i].address,
            out[j].address,
        ) by {
            if j == sorted.len() {
                assert(sorted[sorted.len() - 1].address != x.address);
                if i < sorted.len() - 1 {
                    lemma_lex_lt_transitive(sorted[i].address, sorted.last().address, x.address);
                }
            }
        }
        assert forall|e: AccountChangeView| out.contains(e) <==> (e == x || sorted.contains(
            e,
        )) by {
            if out.contains(e) {
                let k = choose|k: int| 0 <= k < out.len() && out[k] == e;
                if k < sorted.len() {
                    assert(sorted[k] == e);
                }
            }
            if e == x {
                assert(out[sorted.len() as int] == x);
            }
            if sorted.contains(e) {
                let k = choose|k: int| 0 <= k < sorted.len() && sorted[k] == e;
                assert(out[k] == e);
            }
        }
    } else {
        let rest = sorted.drop_last();
        let last = sorted.last();
        assert forall|i: int| 0 <= i < rest.len() implies (#[trigger] rest[i]).address
            != x.address by {
            assert(rest[i] == sorted[i]);
        }
        lemma_insert_fresh(rest, x);
        let inner = insert_change(rest, x);
        lemma_lex_total(last.address, x.address);
        assert(lex_lt(x.address, last.address));
        assert forall|i: int, j: int| 0 <= i < j < out.len() implies lex_lt(
            out[i].address,
            out[j].address,
        ) by {
            if j == inner.len() {
                assert(inner.contains(inner[i]));
                if inner[i] == x {
                } else {
                    assert(rest.contains(inner[i]));
                    let k = choose|k: int| 0 <= k < rest.len() && rest[k] == inner[i];
                    assert(sorted[k] == inner[i]);
                }
            }
        }
        assert forall|i: int| 0 <= i < out.len() implies (#[trigger] out[i]).address.len()
            == 20 by {
            if i < inner.len() {
                assert(out[i] == inner[i]);
            }
        }
        assert forall|e: AccountChangeView| out.contains(e) <==> (e == x || sorted.contains(
            e,
        )) by {
            if out.contains(e) {
                let k = choose|k: int| 0 <= k < out.len() && out[k] == e;
                if k < inner.len() {
                    assert(inner[k] == e);
                    assert(inner.contains(e));
                    if e != x {
                        assert(rest.contains(e));
                        let m = choose|m: int| 0 <= m < rest.len() && rest[m] == e;
                        assert(sorted[m] == e);
                    }
                } else {
                    assert(sorted[sorted.len() - 1] == e);
                }
            }
            if e == x {
                assert(inner.contains(x));
                let k = choose|k: int| 0 <= k < inner.len() && inner[k] == x;
                assert(out[k] == x);
            }
            if sorted.contains(e) {
                let k = choose|k: int| 0 <= k < sorted.len() && sorted[k] == e;
                if k < rest.len() {
                    assert(rest[k] == e);
                    assert(inner.contains(e));
                    let m = choose|m: int| 0 <= m < inner.len() && inner[m] == e;
                    assert(out[m] == e);
                } else {
                    assert(out[inner.len() as int] == e);
                }
            }
        }
    }
}

/// Sorting changes of different addresses gives them strictly sorted, and
/// gives those changes and no others.
pub proof fn lemma_sort_distinct(s: Seq<AccountChangeView>)
    requires
        distinct_change_addresses(s),
        addresses_wf(s),
    ensures
        strictly_sorted(sort_by_address(s)),
        addresses_wf(sort_by_address(s)),
        forall|e: AccountChangeView|
            #![trigger sort_by_address(s).contains(e)]
            #![trigger s.contains(e)]
            sort_by_address(s).contains(e) <==> s.contains(e),
    decreases s.len(),
{
    let out = sort_by_address(s);
    if s.len() == 0 {
        assert forall|e: AccountChangeView| out.contains(e) <==> s.contains(e) by {
            if out.contains(e) {
                let k = choose|k: int| 0 <= k < out.len() && out[k] == e;
            }
            if s.contains(e) {
                let k = choose|k: int| 0 <= k < s.len() && s[k] == e;
            }
        }
    } else {
        let rest = s.drop_last();
        let x = s.last();
        assert(distinct_change_addresses(rest)) by {
            assert forall|i: int, j: int| 0 <= i < j < rest.len() implies rest[i].address
                != rest[j].address by {
                assert(rest[i] == s[i] && rest[j] == s[j]);
            }
        }
        assert(addresses_wf(rest)) by {
            assert forall|i: int| 0 <= i < rest.len() implies (#[trigger] rest[i]).address.len()
                == 20 by {
                assert(rest[i] == s[i]);
            }
        }
        lemma_sort_distinct(rest);
        let sorted = sort_by_address(rest);
        assert forall|i: int| 0 <= i < sorted.len() implies (#[trigger] sorted[i]).address
            != x.address by {
            assert(sorted.contains(sorted[i]));
            assert(rest.contains(sorted[i]));
            let k = choose|k: int| 0 <= k < rest.len() && rest[k] == sorted[i];
            assert(s[k] == sorted[i]);
        }
        lemma_insert_fresh(sorted, x);
        assert forall|e: AccountChangeView| out.contains(e) <==> s.contains(e) by {
            if s.contains(e) {
                let k = choose|k: int| 0 <= k < s.len() && s[k] == e;
                if k < rest.len() {
                    assert(rest[k] == e);
                    assert(rest.contains(e));
                }
            }
            if rest.contains(e) {
                let k = choose|k: int| 0 <= k < rest.len() && rest[k] == e;
                assert(s[k] == e);
            }
            if e == x {
                assert(s[s.len() - 1] == x);
            }
        }
    }
}

/// Two strictly sorted sequences that hold the same changes are the same
/// sequence.
pub proof fn lemma_strictly_sorted_unique(x: Seq<AccountChangeView>, y: Seq<AccountChangeView>)
    requires
        strictly_sorted(x),
        strictly_sorted(y),
        forall|e: AccountChangeView|
            #![trigger x.contains(e)]
            #![trigger y.contains(e)]
            x.contains(e) <==> y.contains(e),
    ensures
        x == y,
    decreases x.len(),
{
    if x.len() == 0 {
        if y.len() > 0 {
            assert(y.contains(y[0]));
            assert(x.contains(y[0]));
        }
        assert(x =~= y);
    } else {
        let xl = x.last();
        assert(x.contains(xl)) by {
            assert(x[x.len() - 1] == xl);
        }
        assert(y.contains(xl));
        let k = choose|k: int| 0 <= k < y.len() && y[k] == xl;
        let yl = y.last();
        assert(y.contains(yl)) by {
            assert(y[y.len() - 1] == yl);
        }
        assert(x.contains(yl));
        let m = choose|m: int| 0 <= m < x.len() && x[m] == yl;
        assert(xl == yl) by {
            if k < y.len() - 1 {
                // xl comes before yl in y, and yl is xl or before it in x
                assert(lex_lt(xl.address, yl.address));
                if m < x.len() - 1 {
                    assert(lex_lt(yl.address, xl.address));
                    lemma_lex_lt_transitive(xl.address, yl.address, xl.address);
                }
                lemma_lex_lt_irreflexive(xl.address);
            }
        }
        let xr = x.drop_last();
        let yr = y.drop_last();
        assert forall|e: AccountChangeView| xr.contains(e) <==> yr.contains(e) by {
            if xr.contains(e) {
                let i = choose|i: int| 0 <= i < xr.len() && xr[i] == e;
                assert(x[i] == e);
                assert(x.contains(e));
                let j = choose|j: int| 0 <= j < y.len() && y[j] == e;
                if j == y.len() - 1 {
                    assert(lex_lt(x[i].address, x[x.len() - 1].address));
                    lemma_lex_lt_irreflexive(e.address);
                }
                assert(yr[j] == e);
            }
            if yr.contains(e) {
                let j = choose|j: int| 0 <= j < yr.len() && yr[j] == e;
                assert(y[j] == e);
                assert(y.contains(e));
                let i = choose|i: int| 0 <= i < x.len() && x[i] == e;
                if i == x.len() - 1 {
                    assert(lex_lt(y[j].address, y[y.len() - 1].address));
                    lemma_lex_lt_irreflexive(e.address);
                }
                assert(xr[i] == e);
            }
        }
        assert(strictly_sorted(xr)) by {
            assert forall|i: int, j: int| 0 <= i < j < xr.len() implies lex_lt(
                xr[i].address,
                xr[j].address,
            ) by {
                assert(xr[i] == x[i] && xr[j] == x[j]);
            }
        }
        assert(strictly_sorted(yr)) by {
            assert forall|i: int, j: int| 0 <= i < j < yr.len() implies lex_lt(
                yr[i].address,
                yr[j].address,
            ) by {
                assert(yr[i] == y[i] && yr[j] == y[j]);
            }
        }
        lemma_strictly_sorted_unique(xr, yr);
        assert(x =~= xr.push(xl));
        assert(y =~= yr.push(yl));
    }
}

/// The order in which changes of different addresses are given plays no
/// part in the order in which they are written: two sequences that hold the
/// same changes are sorted to the same sequence.
pub proof fn law_given_order_does_not_matter(a: Seq<AccountChangeView>, b: Seq<AccountChangeView>)
    requires
        distinct_change_addresses(a),
        distinct_change_addresses(b),
        addresses_wf(a),
        addresses_wf(b),
        forall|e: AccountChangeView|
            #![trigger a.contains(e)]
            #![trigger b.contains(e)]
            a.contains(e) <==> b.contains(e),
    ensures
        sort_by_address(a) == sort_by_address(b),
{
    lemma_sort_distinct(a);
    lemma_sort_distinct(b);
    let x = sort_by_address(a);
    let y = sort_by_address(b);
    assert forall|e: AccountChangeView| x.contains(e) <==> y.contains(e) by {
        if x.contains(e) {
            assert(a.contains(e));
            assert(b.contains(e));
        }
        if y.contains(e) {
            assert(b.contains(e));
            assert(a.contains(e));
        }
    }
    lemma_strictly_sorted_unique(x, y);
}

/// The changes in the order of their addresses.
pub fn sort_changes(changes: &Vec<AccountChange>) -> (out: Vec<AccountChange>)
    ensures
        changes_view(out@) == sort_by_address(changes_view(changes@)),
{
    let n: usize = changes.len();
    let ghost all = changes_view(changes@);
    let mut out: Vec<AccountChange> = Vec::new();
    let mut i: usize = 0;
    assert(changes_view(out@) =~= sort_by_address(all.subrange(0, 0)));
    while i < n
        invariant
            n == changes@.len(),
            all == changes_view(changes@),
            i <= n,
            changes_view(out@) == sort_by_address(all.subrange(0, i as int)),
            out@.len() == i,
        decreases n - i,
    {
        let x = changes[i];
        let ghost before = changes_view(out@);
        out.push(x);
        let mut j: usize = i;
        proof {
            assert(before.subrange(0, i as int) =~= before);
            assert(insert_change(before, x@) + before.subrange(i as int, i as int)
                =~= insert_change(before, x@));
        }
        while j > 0 && !array20_le(&out[j - 1].address.bytes, &x.address.bytes)
            invariant
                j <= i,
                i < n,
                out@.len() == i + 1,
                before.len() == i,
                forall|k: int| 0 <= k < j ==> out@[k]@ == before[k],
                forall|k: int| j < k <= i ==> out@[k]@ == before[k - 1],
                insert_change(before, x@) == insert_change(before.subrange(0, j as int), x@)
                    + before.subrange(j as int, i as int),
            decreases j,
        {
            let moved = out[j - 1];
            out.set(j, moved);
            proof {
                let head = before.subrange(0, j as int);
                assert(head.last() == before[j - 1]);
                assert(head.drop_last() =~= before.subrange(0, j - 1));
                assert(insert_change(head, x@) == insert_change(head.drop_last(), x@).push(
                    head.last(),
                ));
                assert(insert_change(before.subrange(0, j - 1), x@).push(before[j - 1])
                    + before.subrange(j as int, i as int) =~= insert_change(
                    before.subrange(0, j - 1),
                    x@,
                ) + before.subrange(j - 1, i as int));
            }
            j = j - 1;
        }
        out.set(j, x);
        proof {
            let head = before.subrange(0, j as int);
            if j > 0 {
                assert(head.last() == before[j - 1]);
                assert(insert_change(head, x@) == head.push(x@));
            } else {
                assert(head =~= Seq::empty());
                assert(insert_change(head, x@) =~= head.push(x@));
            }
            assert(changes_view(out@) =~= head.push(x@) + before.subrange(j as int, i as int));
            let upto = all.subrange(0, i + 1);
            assert(upto.drop_last() =~= all.subrange(0, i as int));
            assert(upto.last() == x@);
        }
        i = i + 1;
    }
    assert(all.subrange(0, n as int) =~= all);
    out
}

} // verus!
