use qmdb_adapter::execute::{
    flatten_receipts, flatten_requests, BatchExecutor, BlockExecutionInput, BlockExecutionOutput,
    BlockExecutorProvider, BlockWithSenders, ExecutionOutcome, Executor, Log, PruneMode,
    PruneModes, Receipt, Requests,
};
use qmdb_adapter::primitives::{Address, B256, U256};
use qmdb_adapter::reader::SnapshotReader;
use qmdb_adapter::test_utils::{output_of, MockExecutorProvider, QueueExhausted};
use revm::database::BundleState;
use revm::state::AccountInfo;

fn receipt(gas: u64) -> Receipt {
    Receipt {
        tx_type: 2,
        success: gas % 2 == 0,
        cumulative_gas_used: gas,
        logs: vec![Log {
            address: Address { bytes: [gas as u8; 20] },
            topics: vec![B256 { bytes: [1; 32] }],
            data: vec![gas as u8],
        }],
    }
}

fn bundle(byte: u8) -> BundleState {
    BundleState::builder(0..=0)
        .state_present_account_info(
            alloy_primitives::Address::from([byte; 20]),
            AccountInfo::default().with_nonce(byte as u64),
        )
        .build()
}

fn outcome(tag: u8) -> ExecutionOutcome {
    ExecutionOutcome {
        bundle: bundle(tag),
        receipts: vec![
            vec![Some(receipt(10 + tag as u64)), None, Some(receipt(20 + tag as u64))],
            vec![],
            vec![None, Some(receipt(30 + tag as u64))],
        ],
        requests: vec![
            Requests { items: vec![vec![tag, 1], vec![tag, 2]] },
            Requests { items: vec![] },
            Requests { items: vec![vec![tag, 3]] },
        ],
        first_block: tag as u64,
    }
}

fn output(tag: u8) -> BlockExecutionOutput {
    BlockExecutionOutput {
        state: bundle(tag),
        receipts: vec![
            receipt(10 + tag as u64),
            receipt(20 + tag as u64),
            receipt(30 + tag as u64),
        ],
        requests: Requests { items: vec![vec![tag, 1], vec![tag, 2], vec![tag, 3]] },
        gas_used: 0,
    }
}

fn input() -> BlockExecutionInput {
    BlockExecutionInput {
        block: BlockWithSenders { number: 1, senders: vec![Address { bytes: [1; 20] }] },
        total_difficulty: U256::zero(),
    }
}

fn reader() -> SnapshotReader {
    SnapshotReader::at(1)
}

#[test]
fn kept_receipts_come_block_after_block() {
    let flat = flatten_receipts(vec![
        vec![Some(receipt(1)), None],
        vec![],
        vec![None, None],
        vec![Some(receipt(2)), Some(receipt(3))],
    ]);
    assert_eq!(flat, vec![receipt(1), receipt(2), receipt(3)]);
    assert_eq!(flatten_receipts(Vec::new()), Vec::<Receipt>::new());
}

#[test]
fn requests_come_block_after_block() {
    let flat = flatten_requests(vec![
        Requests { items: vec![vec![1], vec![2, 2]] },
        Requests::default(),
        Requests { items: vec![vec![]] },
    ]);
    assert_eq!(flat, Requests { items: vec![vec![1], vec![2, 2], vec![]] });
    assert_eq!(flatten_requests(Vec::new()), Requests::default());
}

#[test]
fn output_of_an_outcome_has_its_state_and_no_gas() {
    assert_eq!(output_of(outcome(7)), output(7));
    let empty = output_of(ExecutionOutcome::default());
    assert_eq!(empty.gas_used, 0);
    assert!(empty.receipts.is_empty());
    assert!(empty.requests.items.is_empty());
    assert_eq!(empty.state, BundleState::default());
}

#[test]
fn outcome_knows_whether_receipts_and_requests_cover_the_same_blocks() {
    assert!(outcome(1).is_aligned());
    assert_eq!(outcome(1).len(), 3);
    let mut skewed = outcome(1);
    skewed.requests.pop();
    assert!(!skewed.is_aligned());
}

#[test]
fn scripted_outcomes_are_returned_first_in_first_out() {
    let mut provider = MockExecutorProvider::new();
    provider.extend(vec![outcome(1), outcome(2)]);
    assert_eq!(provider.len(), 2);
    assert_eq!(provider.execute(input()), Ok(output(1)));
    assert_eq!(provider.len(), 1);
    assert_eq!(provider.execute(input()), Ok(output(2)));
    assert_eq!(provider.len(), 0);
    assert_eq!(provider.execute(input()), Err(QueueExhausted));
    assert_eq!(provider.len(), 0);
}

#[test]
fn executors_answer_in_the_order_of_the_queue() {
    let mut provider = MockExecutorProvider::new();
    provider.extend(vec![outcome(1), outcome(2)]);
    assert_eq!(provider.executor(reader()).execute(input()), Ok(output(1)));
    assert_eq!(provider.len(), 1);
    assert_eq!(provider.executor(reader()).execute(input()), Ok(output(2)));
    assert_eq!(provider.executor(reader()).execute(input()), Err(QueueExhausted));
}

#[test]
fn making_an_executor_takes_nothing_out_of_the_queue() {
    let mut provider = MockExecutorProvider::new();
    provider.extend(vec![outcome(1), outcome(2)]);
    {
        let executor = provider.executor(reader());
        assert_eq!(executor.provider.len(), 2);
        assert_eq!(executor.db, reader());
    }
    {
        let _batch = provider.batch_executor(reader());
    }
    assert_eq!(provider.len(), 2);
    assert_eq!(provider.execute(input()), Ok(output(1)));
}

#[test]
fn executor_made_before_an_outcome_was_scripted_is_not_stuck_with_nothing() {
    let mut provider = MockExecutorProvider::new();
    {
        let _early = provider.executor(reader());
    }
    provider.extend(vec![outcome(3)]);
    assert_eq!(provider.executor(reader()).execute(input()), Ok(output(3)));
}

#[test]
fn later_extend_goes_behind_what_waits() {
    let mut provider = MockExecutorProvider::new();
    provider.extend(vec![outcome(1)]);
    provider.extend(vec![outcome(2), outcome(3)]);
    provider.extend(Vec::new());
    assert_eq!(provider.len(), 3);
    assert_eq!(provider.executor(reader()).execute(input()), Ok(output(1)));
    assert_eq!(provider.len(), 2);
    assert_eq!(provider.executor(reader()).execute(input()), Ok(output(2)));
    assert_eq!(provider.executor(reader()).execute(input()), Ok(output(3)));
    assert_eq!(provider.executor(reader()).execute(input()), Err(QueueExhausted));
}

#[test]
fn executor_of_an_empty_provider_has_nothing_to_answer() {
    let mut provider = MockExecutorProvider::new();
    assert_eq!(provider.len(), 0);
    assert_eq!(provider.executor(reader()).execute(input()), Err(QueueExhausted));
    assert_eq!(provider.batch_executor(reader()).finalize(), Err(QueueExhausted));
    assert_eq!(provider.finalize(), Err(QueueExhausted));
    assert_eq!(MockExecutorProvider::default().execute(input()), Err(QueueExhausted));
}

#[test]
fn batch_executor_hands_out_the_scripted_outcome() {
    let mut provider = MockExecutorProvider::new();
    provider.extend(vec![outcome(1), outcome(2)]);
    {
        let mut batch = provider.batch_executor(reader());
        assert_eq!(batch.execute_and_verify_one(input()), Ok(()));
        assert_eq!(batch.execute_and_verify_one(input()), Ok(()));
        batch.set_tip(10);
        batch.set_prune_modes(PruneModes {
            receipts: Some(PruneMode::Distance(5)),
            ..PruneModes::default()
        });
        assert_eq!(batch.size_hint(), None);
        assert_eq!(batch.provider.len(), 2);
        assert_eq!(batch.finalize(), Ok(outcome(1)));
    }
    assert_eq!(provider.len(), 1);
    assert_eq!(provider.batch_executor(reader()).finalize(), Ok(outcome(2)));
    assert_eq!(provider.batch_executor(reader()).finalize(), Err(QueueExhausted));
}

#[test]
fn single_and_batch_executors_share_one_queue() {
    let mut provider = MockExecutorProvider::new();
    provider.extend(vec![outcome(1), outcome(2), outcome(3), outcome(4)]);
    assert_eq!(provider.executor(reader()).execute(input()), Ok(output(1)));
    assert_eq!(provider.batch_executor(reader()).finalize(), Ok(outcome(2)));
    assert_eq!(provider.finalize(), Ok(outcome(3)));
    assert_eq!(provider.executor(reader()).execute(input()), Ok(output(4)));
}

#[test]
fn witness_sees_the_state_and_the_output_is_that_of_execute() {
    let mut provider = MockExecutorProvider::new();
    provider.extend(vec![outcome(6), outcome(6), outcome(7)]);
    let mut seen: Vec<BundleState> = Vec::new();
    let witnessed = provider
        .executor(reader())
        .execute_with_state_witness(input(), |state: &BundleState| seen.push(state.clone()));
    assert_eq!(seen, vec![bundle(6)]);
    assert_eq!(provider.len(), 2);
    assert_eq!(witnessed, provider.executor(reader()).execute(input()));
    assert_eq!(witnessed, Ok(output(6)));
    let mut calls = 0;
    let direct = provider.execute_with_state_witness(input(), |state: &BundleState| {
        assert_eq!(*state, bundle(7));
        calls += 1;
    });
    assert_eq!(direct, Ok(output(7)));
    assert_eq!(calls, 1);
}

#[test]
fn witness_is_not_called_when_nothing_is_scripted() {
    let mut provider = MockExecutorProvider::new();
    let mut calls = 0;
    let out = provider
        .executor(reader())
        .execute_with_state_witness(input(), |_state: &BundleState| calls += 1);
    assert_eq!(out, Err(QueueExhausted));
    assert_eq!(calls, 0);
}
