//! A block executor for tests of the pipeline: it runs nothing and answers
//! with outcomes that the test wrote down beforehand.
//!
//! The outcomes wait in a queue that the provider owns. They leave it first
//! in, first out, one for each run: making an executor takes nothing out of
//! the queue, and the run of an executor takes out the oldest outcome and
//! answers with it. A run on an empty queue has nothing to answer with, and
//! says so. An executor borrows the provider that made it, so while it is
//! there nothing else reaches the queue.

use std::collections::VecDeque;
use vstd::prelude::*;
use revm::database::BundleState;
use crate::execute::{
    all_receipts, all_requests, flatten_receipts, flatten_requests, BatchExecutor,
    BlockExecutionInput, BlockExecutionOutput, BlockExecutorProvider, ExecutionOutcome, Executor,
    PruneModes,
};

verus! {

/// The executor was asked for an outcome and has none left.
#[derive(Clone, Copy, Debug, PartialEq, Eq, Structural)]
pub struct QueueExhausted;

/// Whether `output` is what a single block's executor answers when the
/// scripted outcome is `outcome`: the outcome's state, its kept receipts and
/// its requests, each block after block, and no gas used.
pub open spec fn is_output_of(outcome: ExecutionOutcome, output: BlockExecutionOutput) -> bool {
    &&& output.state == outcome.bundle
    &&& output.receipts@ == all_receipts(outcome.receipts@)
    &&& output.requests.items@ == all_requests(outcome.requests@)
    &&& output.gas_used == 0
}

/// The single block's answer for a scripted outcome.
pub fn output_of(outcome: ExecutionOutcome) -> (output: BlockExecutionOutput)
    ensures
        is_output_of(outcome, output),
{
    let ExecutionOutcome { bundle, receipts, requests, first_block: _ } = outcome;
    BlockExecutionOutput {
        state: bundle,
        receipts: flatten_receipts(receipts),
        requests: flatten_requests(requests),
        gas_used: 0,
    }
}

/// A provider of executors that answer with scripted outcomes.
#[derive(Debug, Default)]
pub struct MockExecutorProvider {
    exec_results: VecDeque<ExecutionOutcome>,
}

impl View for MockExecutorProvider {
    type V = Seq<ExecutionOutcome>;

    closed spec fn view(&self) -> Seq<ExecutionOutcome> {
        self.exec_results@
    }
}

impl MockExecutorProvider {
    /// A provider with nothing scripted.
    pub fn new() -> (provider: MockExecutorProvider)
        ensures
            provider@ == Seq::<ExecutionOutcome>::empty(),
    {
        MockExecutorProvider { exec_results: VecDeque::new() }
    }

    /// Number of outcomes that wait.
    pub fn len(&self) -> (n: usize)
        ensures
            n == self@.len(),
    {
        self.exec_results.len()
    }

    /// Puts `results` at the end of the queue, in their order.
    pub fn extend(&mut self, results: Vec<ExecutionOutcome>)
        ensures
            final(self)@ == old(self)@ + results@,
    {
        let ghost all = results@;
        assert(self@ =~= old(self)@ + all.subrange(0, 0));
        for outcome in it: results
            invariant
                it.seq() == all,
                self@ == old(self)@ + all.subrange(0, it.index() as int),
        {
            self.exec_results.push_back(outcome);
            assert(all.subrange(0, it.index() + 1) =~= all.subrange(0, it.index() as int).push(
                outcome,
            ));
        }
        assert(all.subrange(0, all.len() as int) =~= all);
    }

    /// The queue without its oldest outcome; an empty queue stays empty.
    pub open spec fn rest(queue: Seq<ExecutionOutcome>) -> Seq<ExecutionOutcome> {
        if queue.len() > 0 {
            queue.subrange(1, queue.len() as int)
        } else {
            queue
        }
    }

    /// Whether `out` is what a single block's run answers on the queue
    /// `queue`: the output of the oldest outcome, or `QueueExhausted` when
    /// there is none.
    pub open spec fn answers(
        queue: Seq<ExecutionOutcome>,
        out: Result<BlockExecutionOutput, QueueExhausted>,
    ) -> bool {
        match out {
            Ok(output) => queue.len() > 0 && is_output_of(queue[0], output),
            Err(_) => queue.len() == 0,
        }
    }

    /// Whether `out` is what is handed out at the end on the queue `queue`:
    /// the oldest outcome, or `QueueExhausted` when there is none.
    pub open spec fn hands_out(
        queue: Seq<ExecutionOutcome>,
        out: Result<ExecutionOutcome, QueueExhausted>,
    ) -> bool {
        match out {
            Ok(outcome) => queue.len() > 0 && outcome == queue[0],
            Err(_) => queue.len() == 0,
        }
    }

    /// The state that a run on the queue `queue` shows to a witness: that of
    /// the oldest outcome; none when the queue is empty.
    pub open spec fn state_shown(queue: Seq<ExecutionOutcome>) -> Option<BundleState> {
        if queue.len() > 0 {
            Some(queue[0].bundle)
        } else {
            None
        }
    }

    /// Takes the oldest outcome out of the queue and answers with its
    /// output; on an empty queue the answer is `QueueExhausted`. The input
    /// plays no part.
    pub fn execute(&mut self, input: BlockExecutionInput) -> (out: Result<
        BlockExecutionOutput,
        QueueExhausted,
    >)
        ensures
            Self::answers(old(self)@, out),
            final(self)@ == Self::rest(old(self)@),
    {
        match self.finalize() {
            Ok(outcome) => Ok(output_of(outcome)),
            Err(e) => Err(e),
        }
    }

    /// Takes the oldest outcome out of the queue, calls `witness` once with
    /// its state, and answers as `execute` does. On an empty queue there is
    /// no state to show: `witness` is not called and the answer is
    /// `QueueExhausted`.
    pub fn execute_with_state_witness<F>(
        &mut self,
        input: BlockExecutionInput,
        witness: F,
    ) -> (out: Result<BlockExecutionOutput, QueueExhausted>) where F: FnOnce(&BundleState)
        requires
            forall|state: &BundleState| #[trigger] call_requires(witness, (state,)),
        ensures
            Self::answers(old(self)@, out),
            final(self)@ == Self::rest(old(self)@),
            Self::state_shown(old(self)@) matches Some(state) ==> call_ensures(
                witness,
                (&state,),
                (),
            ),
    {
        match self.finalize() {
            Ok(outcome) => {
                assert(call_requires(witness, (&outcome.bundle,)));
                witness(&outcome.bundle);
                Ok(output_of(outcome))
            },
            Err(e) => Err(e),
        }
    }

    /// Takes the oldest outcome out of the queue and hands it out; on an
    /// empty queue the answer is `QueueExhausted`.
    pub fn finalize(&mut self) -> (out: Result<ExecutionOutcome, QueueExhausted>)
        ensures
            Self::hands_out(old(self)@, out),
            final(self)@ == Self::rest(old(self)@),
    {
        match self.exec_results.pop_front() {
            Some(outcome) => Ok(outcome),
            None => Err(QueueExhausted),
        }
    }
}

/// An executor that answers from the queue of the provider that made it.
/// While it is there, it alone reaches the queue.
pub struct MockExecutor<'a, DB> {
    /// The provider whose queue the executor answers from.
    pub provider: &'a mut MockExecutorProvider,
    /// The reader of the state that the executor was made for. It is not
    /// read: the answers are scripted.
    pub db: DB,
}

impl<DB> BlockExecutorProvider<DB> for MockExecutorProvider {
    type Executor<'a> = MockExecutor<'a, DB>;

    type BatchExecutor<'a> = MockExecutor<'a, DB>;

    /// An executor of one block. Making it takes nothing out of the queue:
    /// the executor finds the queue as it is, and the provider gets it back
    /// as the executor leaves it.
    fn executor<'a>(&'a mut self, db: DB) -> (executor: MockExecutor<'a, DB>)
        ensures
            *executor.provider == *old(self),
            *final(self) == *final(executor.provider),
            executor.db == db,
    {
        MockExecutor { provider: self, db }
    }

    /// An executor of many blocks. Making it takes nothing out of the queue:
    /// the executor finds the queue as it is, and the provider gets it back
    /// as the executor leaves it.
    fn batch_executor<'a>(&'a mut self, db: DB) -> (executor: MockExecutor<'a, DB>)
        ensures
            *executor.provider == *old(self),
            *final(self) == *final(executor.provider),
            executor.db == db,
    {
        MockExecutor { provider: self, db }
    }
}

impl<'a, DB> Executor<DB> for MockExecutor<'a, DB> {
    type Input = BlockExecutionInput;

    type Output = BlockExecutionOutput;

    type Error = QueueExhausted;

    open spec fn executes_to(
        &self,
        input: &BlockExecutionInput,
        out: &Result<BlockExecutionOutput, QueueExhausted>,
    ) -> bool {
        MockExecutorProvider::answers((*self.provider)@, *out)
    }

    open spec fn shown(&self, input: &BlockExecutionInput) -> Option<BundleState> {
        MockExecutorProvider::state_shown((*self.provider)@)
    }

    /// The oldest outcome leaves the provider's queue, and the answer is its
    /// output.
    fn execute(self, input: BlockExecutionInput) -> (out: Result<
        BlockExecutionOutput,
        QueueExhausted,
    >)
        ensures
            (*final(self.provider))@ == MockExecutorProvider::rest((*old(self.provider))@),
    {
        self.provider.execute(input)
    }

    /// The oldest outcome leaves the provider's queue, `witness` is called
    /// with its state, and the answer is its output.
    fn execute_with_state_witness<F>(self, input: BlockExecutionInput, witness: F) -> (out: Result<
        BlockExecutionOutput,
        QueueExhausted,
    >) where F: FnOnce(&BundleState)
        ensures
            (*final(self.provider))@ == MockExecutorProvider::rest((*old(self.provider))@),
    {
        self.provider.execute_with_state_witness(input, witness)
    }
}

impl<'a, DB> BatchExecutor<DB> for MockExecutor<'a, DB> {
    type Input = BlockExecutionInput;

    type Output = ExecutionOutcome;

    type Error = QueueExhausted;

    /// A run succeeds and takes nothing out of the queue: the answer is
    /// scripted.
    open spec fn runs_to(
        &self,
        input: &BlockExecutionInput,
        after: &MockExecutor<'a, DB>,
        out: &Result<(), QueueExhausted>,
    ) -> bool {
        *out is Ok && (*after.provider)@ == (*self.provider)@
    }

    open spec fn finalizes_to(&self, out: &Result<ExecutionOutcome, QueueExhausted>) -> bool {
        MockExecutorProvider::hands_out((*self.provider)@, *out)
    }

    /// The double has no estimate.
    open spec fn estimate(&self) -> Option<usize> {
        None
    }

    fn execute_and_verify_one(&mut self, input: BlockExecutionInput) -> (out: Result<
        (),
        QueueExhausted,
    >)
        ensures
            *final(self).provider == *old(self).provider,
            *final(final(self).provider) == *final(old(self).provider),
    {
        Ok(())
    }

    /// The oldest outcome leaves the provider's queue and is handed out.
    fn finalize(self) -> (out: Result<ExecutionOutcome, QueueExhausted>)
        ensures
            (*final(self.provider))@ == MockExecutorProvider::rest((*old(self.provider))@),
    {
        self.provider.finalize()
    }

    /// Changes nothing: the answer is scripted.
    fn set_tip(&mut self, tip: u64)
        ensures
            *final(self).provider == *old(self).provider,
            *final(final(self).provider) == *final(old(self).provider),
    {
    }

    /// Changes nothing: the answer is scripted.
    fn set_prune_modes(&mut self, prune_modes: PruneModes)
        ensures
            *final(self).provider == *old(self).provider,
            *final(final(self).provider) == *final(old(self).provider),
    {
    }

    fn size_hint(&self) -> (hint: Option<usize>) {
        None
    }
}

} // verus!
