//! What the pipeline asks of a block executor, and the values it exchanges
//! with one.
//!
//! An `Executor` runs one block and is used up by it. A `BatchExecutor` runs
//! block after block and hands out everything at the end. A
//! `BlockExecutorProvider` makes either for a reader of the state, so that
//! every unit of work has an executor of its own. An executor may borrow
//! from its provider; then the provider cannot be reached while the executor
//! is there.

use vstd::prelude::*;
use revm::database::BundleState;
use crate::primitives::{Address, B256, U256};

verus! {

/// One log entry of a transaction.
#[derive(Clone, Debug, PartialEq, Eq)]
pub struct Log {
    pub address: Address,
    pub topics: Vec<B256>,
    pub data: Vec<u8>,
}

/// What one transaction left behind.
#[derive(Clone, Debug, PartialEq, Eq)]
pub struct Receipt {
    pub tx_type: u8,
    pub success: bool,
    pub cumulative_gas_used: u64,
    pub logs: Vec<Log>,
}

/// The requests of one block, each as its bytes.
#[derive(Clone, Debug, Default, PartialEq, Eq)]
pub struct Requests {
    pub items: Vec<Vec<u8>>,
}

/// A block with the senders of its transactions.
#[derive(Clone, Debug, PartialEq, Eq)]
pub struct BlockWithSenders {
    pub number: u64,
    pub senders: Vec<Address>,
}

/// What an executor is given to run one block.
#[derive(Clone, Debug, PartialEq, Eq)]
pub struct BlockExecutionInput {
    pub block: BlockWithSenders,
    pub total_difficulty: U256,
}

/// What running one block gives.
#[derive(Debug, PartialEq, Eq)]
pub struct BlockExecutionOutput {
    /// The changes to the state.
    pub state: BundleState,
    /// The receipts of the block's transactions, in their order.
    pub receipts: Vec<Receipt>,
    /// The requests of the block.
    pub requests: Requests,
    /// The gas that the block used.
    pub gas_used: u64,
}

/// What running a range of blocks gives.
#[derive(Debug, Default, PartialEq, Eq)]
pub struct ExecutionOutcome {
    /// The changes to the state.
    pub bundle: BundleState,
    /// For each block, in order, the receipts of its transactions; `None`
    /// stands for a receipt that was not kept.
    pub receipts: Vec<Vec<Option<Receipt>>>,
    /// For each block, in order, its requests.
    pub requests: Vec<Requests>,
    /// Number of the first block.
    pub first_block: u64,
}

/// How much of one kind of data to keep.
#[derive(Clone, Copy, Debug, PartialEq, Eq, Structural)]
pub enum PruneMode {
    /// Keep none.
    Full,
    /// Keep that of the last blocks, this many.
    Distance(u64),
    /// Keep that of the blocks from this number on.
    Before(u64),
}

/// How much to keep of each kind of data; `None` keeps all.
#[derive(Clone, Copy, Debug, Default, PartialEq, Eq)]
pub struct PruneModes {
    pub sender_recovery: Option<PruneMode>,
    pub transaction_lookup: Option<PruneMode>,
    pub receipts: Option<PruneMode>,
    pub account_history: Option<PruneMode>,
    pub storage_history: Option<PruneMode>,
}

/// The receipts of `block` that were kept, in their order.
pub open spec fn kept_receipts(block: Seq<Option<Receipt>>) -> Seq<Receipt>
    decreases block.len(),
{
    if block.len() == 0 {
        Seq::empty()
    } else {
        match block.last() {
            Some(r) => kept_receipts(block.drop_last()).push(r),
            None => kept_receipts(block.drop_last()),
        }
    }
}

/// The kept receipts of all the blocks, block after block.
pub open spec fn all_receipts(blocks: Seq<Vec<Option<Receipt>>>) -> Seq<Receipt>
    decreases blocks.len(),
{
    if blocks.len() == 0 {
        Seq::empty()
    } else {
        all_receipts(blocks.drop_last()) + kept_receipts(blocks.last()@)
    }
}

/// The requests of all the blocks, block after block.
pub open spec fn all_requests(blocks: Seq<Requests>) -> Seq<Vec<u8>>
    decreases blocks.len(),
{
    if blocks.len() == 0 {
        Seq::empty()
    } else {
        all_requests(blocks.drop_last()) + blocks.last().items@
    }
}

impl ExecutionOutcome {
    /// Receipts and requests cover the same blocks: there is one list of
    /// receipts and one of requests for each.
    pub open spec fn aligned(&self) -> bool {
        self.receipts@.len() == self.requests@.len()
    }

    /// Whether receipts and requests cover the same blocks.
    pub fn is_aligned(&self) -> (aligned: bool)
        ensures
            aligned == self.aligned(),
    {
        self.receipts.len() == self.requests.len()
    }

    /// Number of blocks that the receipts cover.
    pub fn len(&self) -> (n: usize)
        ensures
            n == self.receipts@.len(),
    {
        self.receipts.len()
    }
}

/// The kept receipts of all the blocks, block after block.
pub fn flatten_receipts(blocks: Vec<Vec<Option<Receipt>>>) -> (out: Vec<Receipt>)
    ensures
        out@ == all_receipts(blocks@),
{
    let mut out: Vec<Receipt> = Vec::new();
    let ghost all = blocks@;
    for block in outer: blocks
        invariant
            outer.seq() == all,
            out@ == all_receipts(all.subrange(0, outer.index() as int)),
    {
        let ghost done = out@;
        let ghost this = block@;
        for receipt in inner: block
            invariant
                inner.seq() == this,
                out@ == done + kept_receipts(this.subrange(0, inner.index() as int)),
        {
            proof {
                let upto = this.subrange(0, inner.index() + 1);
                assert(upto.drop_last() =~= this.subrange(0, inner.index() as int));
                assert(upto.last() == receipt);
            }
            match receipt {
                Some(r) => {
                    out.push(r);
                },
                None => {},
            }
        }
        proof {
            assert(this.subrange(0, this.len() as int) =~= this);
            let upto = all.subrange(0, outer.index() + 1);
            assert(upto.drop_last() =~= all.subrange(0, outer.index() as int));
            assert(upto.last()@ == this);
        }
    }
    assert(all.subrange(0, all.len() as int) =~= all);
    out
}

/// The requests of all the blocks, block after block.
pub fn flatten_requests(blocks: Vec<Requests>) -> (out: Requests)
    ensures
        out.items@ == all_requests(blocks@),
{
    let mut items: Vec<Vec<u8>> = Vec::new();
    let ghost all = blocks@;
    for block in outer: blocks
        invariant
            outer.seq() == all,
            items@ == all_requests(all.subrange(0, outer.index() as int)),
    {
        let ghost done = items@;
        let ghost this = block.items@;
        for request in inner: block.items
            invariant
                inner.seq() == this,
                items@ == done + this.subrange(0, inner.index() as int),
        {
            items.push(request);
            assert(this.subrange(0, inner.index() + 1) =~= this.subrange(
                0,
                inner.index() as int,
            ).push(request));
        }
        proof {
            assert(this.subrange(0, this.len() as int) =~= this);
            let upto = all.subrange(0, outer.index() + 1);
            assert(upto.drop_last() =~= all.subrange(0, outer.index() as int));
            assert(upto.last().items@ == this);
        }
    }
    assert(all.subrange(0, all.len() as int) =~= all);
    Requests { items }
}

/// Runs one block and is used up by it.
pub trait Executor<DB>: Sized {
    /// What the executor is given.
    type Input;

    /// What a run gives.
    type Output;

    /// Why a run failed.
    type Error;

    /// Whether `out` is what running `input` gives.
    spec fn executes_to(
        &self,
        input: &Self::Input,
        out: &Result<Self::Output, Self::Error>,
    ) -> bool;

    /// The changes to the state that a run of `input` shows to a witness;
    /// `None` when the run has none to show.
    spec fn shown(&self, input: &Self::Input) -> Option<BundleState>;

    /// Runs the block.
    fn execute(self, input: Self::Input) -> (out: Result<Self::Output, Self::Error>)
        ensures
            self.executes_to(&input, &out),
    ;

    /// Runs the block and calls `witness` once with the changes to the
    /// state, as they stand at the end of the run, before it returns. What
    /// is returned is what `execute` returns.
    fn execute_with_state_witness<F>(self, input: Self::Input, witness: F) -> (out: Result<
        Self::Output,
        Self::Error,
    >) where F: FnOnce(&BundleState)
        requires
            forall|state: &BundleState| #[trigger] call_requires(witness, (state,)),
        ensures
            self.executes_to(&input, &out),
            self.shown(&input) matches Some(state) ==> call_ensures(witness, (&state,), ()),
    ;
}

/// Runs block after block and hands out everything at the end.
pub trait BatchExecutor<DB>: Sized {
    /// What the executor is given for one block.
    type Input;

    /// What all the runs together give.
    type Output;

    /// Why a run failed.
    type Error;

    /// Whether running `input` can leave the executor as `after` and answer
    /// `out`.
    spec fn runs_to(&self, input: &Self::Input, after: &Self, out: &Result<(), Self::Error>) -> bool;

    /// Whether `out` is what the executor hands out at the end.
    spec fn finalizes_to(&self, out: &Result<Self::Output, Self::Error>) -> bool;

    /// The executor's estimate of what it holds.
    spec fn estimate(&self) -> Option<usize>;

    /// Runs one block and keeps what it gives.
    fn execute_and_verify_one(&mut self, input: Self::Input) -> (out: Result<(), Self::Error>)
        ensures
            old(self).runs_to(&input, final(self), &out),
    ;

    /// Hands out what the runs gave.
    fn finalize(self) -> (out: Result<Self::Output, Self::Error>)
        ensures
            self.finalizes_to(&out),
    ;

    /// Tells the executor the number of the last block that it will run.
    fn set_tip(&mut self, tip: u64);

    /// Tells the executor how much to keep.
    fn set_prune_modes(&mut self, prune_modes: PruneModes);

    /// An estimate of what the executor holds; `None` when it has none.
    fn size_hint(&self) -> (hint: Option<usize>)
        ensures
            hint == self.estimate(),
    ;
}

/// Makes executors for a reader of the state.
pub trait BlockExecutorProvider<DB> {
    /// The executor of single blocks that it makes.
    type Executor<'a>: Executor<DB> where Self: 'a;

    /// The executor of many blocks that it makes.
    type BatchExecutor<'a>: BatchExecutor<DB> where Self: 'a;

    /// An executor of one block that reads the state through `db`.
    fn executor<'a>(&'a mut self, db: DB) -> Self::Executor<'a>;

    /// An executor of many blocks that reads the state through `db`.
    fn batch_executor<'a>(&'a mut self, db: DB) -> Self::BatchExecutor<'a>;
}

} // verus!
