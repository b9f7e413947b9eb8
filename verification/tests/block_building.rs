use rbuilder_constraints::building::block_building_helper::{
    BiddableUnfinishedBlock, BlockBuildingHelper, BlockBuildingHelperFromProvider, Finalization,
    FinalizeStep, OrderExecution, SlowExecution,
};
use rbuilder_constraints::building::built_block_trace::{
    ExecutionResult, OrderId, OrderStatistics, SimValue, SimulatedOrder, TxInfo,
};
use rbuilder_constraints::building::constraint_proofs::{
    ConstraintProofError, TransactionTrieBuilder,
};
use rbuilder_constraints::building::finalization::{
    ConstraintVerdict, FinalizeAction, FinalizeEvent, FinalizeOutcome, FinalizeResult, SealReport,
    SealedBlock,
};
use rbuilder_constraints::building::helper_error::{
    BlockBuildingHelperError, FinalizeError, InsertPayoutTxErr, ProviderError,
};
use rbuilder_constraints::building::partial_block::{
    BlockBuildingContext, BlockSpace, PartialBlock, TransactionExecutionInfo,
};
use rbuilder_constraints::building::setup::{HelperSetup, SetupAction, SetupEvent, SetupStep};
use rbuilder_constraints::building::transaction::TransactionSigned;
use rbuilder_constraints::constraint_input::messages::Constraint;
use rbuilder_constraints::primitives::clock::UtcTime;
use rbuilder_constraints::primitives::numbers::{I256, U256};

fn u256(n: u64) -> U256 {
    U256::from_u64(n)
}

fn i256(n: i64) -> I256 {
    let high = if n < 0 { u64::MAX } else { 0 };
    I256 { limbs: [n as u64, high, high, high] }
}

fn tx(n: u8) -> TransactionSigned {
    TransactionSigned { hash: [n; 32], rlp: vec![n; 40] }
}

fn info(n: u8, coinbase_profit: i64) -> TransactionExecutionInfo {
    TransactionExecutionInfo {
        tx: tx(n),
        coinbase_profit: i256(coinbase_profit),
        space_used: space(21000),
    }
}

fn space(gas: u64) -> BlockSpace {
    BlockSpace { gas, rlp_length: 40, blob_gas: 0 }
}

fn holding(profit: u64, executed_tx_infos: Vec<TransactionExecutionInfo>) -> PartialBlock {
    PartialBlock {
        coinbase_profit: u256(profit),
        space_used: space(5000),
        space_reserved: space(21000),
        executed_tx_infos,
    }
}

fn sim_value(gas_used: u64) -> SimValue {
    SimValue { coinbase_profit: u256(9), gas_used, mev_gas_price: u256(1) }
}

fn context(constraints: &[u8]) -> BlockBuildingContext {
    BlockBuildingContext {
        block: 100,
        suggested_fee_recipient: [8u8; 20],
        mev_blocker_price: u256(3),
        constraints: constraints.iter().map(|c| Constraint { payload: vec![*c] }).collect(),
    }
}

fn setup_step(step: SetupStep) -> (HelperSetup, SetupAction) {
    match step {
        SetupStep::Perform(setup, action) => (setup, action),
        _ => panic!("setup is over"),
    }
}

fn begin_setup(constraints: &[u8]) -> (HelperSetup, SetupAction) {
    BlockBuildingHelperFromProvider::new(
        7,
        context(constraints),
        "builder".to_string(),
        true,
        OrderStatistics { orders: vec![OrderId::Bundle(5)] },
        Some(1000),
    )
}

fn helper(constraints: &[u8], balance: u64) -> BlockBuildingHelperFromProvider {
    let (setup, _) = begin_setup(constraints);
    let (setup, _) = setup_step(setup.advance(SetupEvent::BlockHashesHealthy));
    let (setup, _) = setup_step(setup.advance(SetupEvent::Balance(Some(u256(balance)))));
    let (setup, _) = setup_step(setup.advance(SetupEvent::PreBlockCalled));
    let space = BlockSpace { gas: 21000, rlp_length: 0, blob_gas: 0 };
    match setup.advance(SetupEvent::PayoutEstimated(space)) {
        SetupStep::Created(helper, reserved) => {
            assert_eq!(reserved, space);
            assert_eq!(helper.partial_block().space_reserved, space);
            helper
        }
        _ => panic!("not created"),
    }
}

fn order(n: u8) -> SimulatedOrder {
    SimulatedOrder {
        id: OrderId::Tx([n; 32]),
        sim_value: sim_value(100),
        txs: vec![TxInfo { hash: [n; 32], signer: [1u8; 20], to: None }],
    }
}

fn included(n: u8, partial_block: PartialBlock) -> Result<Result<OrderExecution, ()>, ()> {
    let result = ExecutionResult {
        order: OrderId::Tx([n; 32]),
        coinbase_profit: u256(10),
        space_used: space(21000),
        inplace_sim: sim_value(200),
    };
    Ok(Ok(OrderExecution { result, partial_block }))
}

fn perform(step: FinalizeStep) -> (Finalization, FinalizeAction) {
    match step {
        FinalizeStep::Perform(finalization, action) => (finalization, action),
        FinalizeStep::Finished(_, outcome) => panic!("{outcome:?}"),
        FinalizeStep::Unexpected(_) => panic!("unexpected"),
    }
}

fn failure(step: FinalizeStep) -> (BlockBuildingHelperFromProvider, BlockBuildingHelperError, bool) {
    match step {
        FinalizeStep::Finished(helper, FinalizeOutcome::Failed { error, cancel_slot }) => {
            (helper, error, cancel_slot)
        }
        _ => panic!("not failed"),
    }
}

fn report(elapsed: u128) -> SealReport {
    SealReport {
        finalized_block: FinalizeResult {
            sealed_block: SealedBlock {
                hash: [6u8; 32],
                gas_used: 900,
                transactions: vec![vec![1], vec![2]],
            },
            txs_blob_sidecars: vec![vec![1]],
            execution_requests: vec![vec![4]],
            bid_adjustments: vec![vec![5]],
            root_hash_time: 11,
        },
        sim_gas_used: 950,
        elapsed,
        sealed_at: UtcTime { unix_nanos: 77 },
    }
}

/// Finalizes a block that holds transaction 1, up to the answer of sealing.
fn seal(helper: BlockBuildingHelperFromProvider, payout: u64, balance: u64) -> Finalization {
    let (f, action) = perform(helper.finalize_block(u256(payout), i256(-2), Some(u256(4))));
    assert!(matches!(action, FinalizeAction::InsertPayout { .. }));
    let partial = holding(0, vec![info(1, 1), info(99, 0)]);
    let (f, _) = perform(f.advance(FinalizeEvent::PayoutInserted(partial)));
    let (f, action) = perform(f.advance(FinalizeEvent::BlockValued(u256(60))));
    assert!(matches!(action, FinalizeAction::ReadBalance { account } if account == [8u8; 20]));
    let (f, action) = perform(f.advance(FinalizeEvent::Balance(u256(balance))));
    assert!(matches!(action, FinalizeAction::VerifyBundles));
    let (f, action) = perform(f.advance(FinalizeEvent::BundlesConsistent));
    assert!(matches!(action, FinalizeAction::Seal { adjust: false }));
    f
}

#[test]
fn block_is_set_up() {
    let (setup, action) = begin_setup(&[]);
    assert_eq!(action, SetupAction::CheckBlockHashes { last_committed_block: 99 });
    let (setup, action) = setup_step(setup.advance(SetupEvent::BlockHashesHealthy));
    assert_eq!(action, SetupAction::ReadBalance { account: [8u8; 20] });
    let (setup, action) = setup_step(setup.advance(SetupEvent::Balance(None)));
    assert_eq!(action, SetupAction::PreBlockCall { discard_txs: true, traced: false });
    let (_, action) = setup_step(setup.advance(SetupEvent::PreBlockCalled));
    assert_eq!(action, SetupAction::EstimatePayout { account: [8u8; 20] });
    let helper = helper(&[], 5);
    assert_eq!(helper.id(), 7);
    assert_eq!(helper.payout_tx_gas(), 21000);
    assert_eq!(helper.builder_name(), "builder");
    assert_eq!(helper.building_context().block, 100);
    let trace = helper.built_block_trace();
    assert_eq!(trace.available_orders_statistics.orders, vec![OrderId::Bundle(5)]);
    assert_eq!(trace.orders_closed_at, trace.orders_sealed_at);
    let now = time::OffsetDateTime::now_utc().unix_timestamp_nanos();
    assert!((now - trace.orders_closed_at.unix_nanos).abs() < 60_000_000_000);
}

#[test]
fn setup_can_be_traced() {
    let (setup, _) = BlockBuildingHelperFromProvider::new_with_execution_tracer(
        7,
        context(&[]),
        "builder".to_string(),
        false,
        OrderStatistics::empty(),
        None,
    );
    let (setup, _) = setup_step(setup.advance(SetupEvent::BlockHashesHealthy));
    let (_, action) = setup_step(setup.advance(SetupEvent::Balance(None)));
    assert_eq!(action, SetupAction::PreBlockCall { discard_txs: false, traced: true });
}

#[test]
fn setup_fails_where_a_step_does() {
    let (setup, _) = begin_setup(&[]);
    assert!(matches!(
        setup.advance(SetupEvent::BlockHashesUnhealthy("h".to_string())),
        SetupStep::Failed(BlockBuildingHelperError::HistoricalBlockError(e)) if e == "h"
    ));
    let (setup, _) = begin_setup(&[]);
    let (setup, _) = setup_step(setup.advance(SetupEvent::BlockHashesHealthy));
    let SetupStep::Unexpected(setup) = setup.advance(SetupEvent::PreBlockCalled) else {
        panic!("taken");
    };
    assert!(matches!(
        setup.advance(SetupEvent::BalanceFailed("b".to_string())),
        SetupStep::Failed(BlockBuildingHelperError::ProviderError(ProviderError::Access(_)))
    ));
    let (setup, _) = begin_setup(&[]);
    let (setup, _) = setup_step(setup.advance(SetupEvent::BlockHashesHealthy));
    let (setup, _) = setup_step(setup.advance(SetupEvent::Balance(None)));
    assert!(matches!(
        setup.advance(SetupEvent::PreBlockCallFailed),
        SetupStep::Failed(BlockBuildingHelperError::PreBlockCallFailed)
    ));
    let (setup, _) = begin_setup(&[]);
    let (setup, _) = setup_step(setup.advance(SetupEvent::BlockHashesHealthy));
    let (setup, _) = setup_step(setup.advance(SetupEvent::Balance(None)));
    let (setup, _) = setup_step(setup.advance(SetupEvent::PreBlockCalled));
    assert!(matches!(
        setup.advance(SetupEvent::PayoutNotEstimated("p".to_string())),
        SetupStep::Failed(BlockBuildingHelperError::UnableToEstimatePayoutGas(_))
    ));
}

#[test]
fn orders_are_recorded() {
    let mut helper = helper(&[], 0);
    let partial = holding(10, vec![info(1, 10)]);
    let (result, report) = helper.commit_order(&order(1), 1000, included(1, partial));
    assert_eq!(result.unwrap().unwrap().coinbase_profit, u256(10));
    assert!(report.sim_ok && report.slow.is_none());
    let failed: Result<Result<OrderExecution, u8>, u8> = Ok(Err(4));
    let (result, report) = helper.commit_order(&order(2), 1001, failed);
    assert!(matches!(result, Ok(Err(4))));
    assert!(!report.sim_ok);
    let slow = report.slow.unwrap();
    assert_eq!(slow.execution, SlowExecution::Failed);
    assert_eq!((slow.sim_time, slow.builder_name.as_str()), (1001, "builder"));
    assert_eq!(slow.id, OrderId::Tx([2u8; 32]));
    assert_eq!(slow.txs, order(2).txs);
    assert_eq!((slow.tob_sim_value, slow.included), (sim_value(100), None));
    let critical: Result<Result<OrderExecution, u8>, u8> = Err(5);
    let (result, report) = helper.commit_order(&order(3), 2000, critical);
    assert!(matches!(result, Err(5)));
    assert_eq!(report.slow.unwrap().execution, SlowExecution::Critical);
    let (_, report) = helper.commit_order(&order(4), 2000, included(4, PartialBlock::new()));
    let slow = report.slow.unwrap();
    assert_eq!(slow.execution, SlowExecution::Included);
    let included = slow.included.unwrap();
    assert_eq!((included.space_used, included.inplace_sim), (space(21000), sim_value(200)));
    assert_eq!(included.coinbase_profit, u256(10));
    let trace = helper.built_block_trace();
    let considered: Vec<OrderId> = (1u8..=4).map(|n| OrderId::Tx([n; 32])).collect();
    assert_eq!(trace.considered_orders_statistics.orders, considered);
    assert_eq!(trace.failed_orders_statistics.orders, vec![OrderId::Tx([2u8; 32])]);
    assert_eq!(trace.included_orders.len(), 2);
}

#[test]
fn trace_is_set() {
    let mut helper = helper(&[], 0);
    helper.set_trace_fill_time(12);
    helper.set_trace_orders_closed_at(UtcTime { unix_nanos: 34 });
    let considered = OrderStatistics { orders: vec![OrderId::Bundle(1)] };
    let failed = OrderStatistics { orders: vec![OrderId::ShareBundle([2u8; 32])] };
    helper.set_filtered_build_statistics(considered, failed);
    let copy = helper.box_clone();
    let trace = copy.built_block_trace();
    assert_eq!(trace.fill_time, 12);
    assert_eq!(trace.orders_closed_at.unix_nanos, 34);
    assert_eq!(trace.considered_orders_statistics.orders, vec![OrderId::Bundle(1)]);
    assert_eq!(trace.failed_orders_statistics.orders, vec![OrderId::ShareBundle([2u8; 32])]);
    assert_eq!(copy.builder_name(), "builder");
}

#[test]
fn block_is_biddable_where_its_value_is_known() {
    let biddable =
        BiddableUnfinishedBlock::new(Box::new(helper(&[], 0)), Ok(u256(9))).ok().unwrap();
    assert_eq!(biddable.id(), 7);
    assert_eq!(biddable.true_block_value, u256(9));
    assert_eq!(biddable.block().builder_name(), "builder");
    let copy = biddable.duplicate();
    assert_eq!(copy.chosen_as_best_at, biddable.chosen_as_best_at);
    assert_eq!(copy.into_building_helper().id(), 7);
    let result = BiddableUnfinishedBlock::new(
        Box::new(helper(&[], 0)),
        Err(InsertPayoutTxErr::ProfitTooLow),
    );
    let error = result.err().unwrap();
    assert!(matches!(
        error,
        BlockBuildingHelperError::InsertPayoutTxErr(InsertPayoutTxErr::ProfitTooLow)
    ));
    assert!(!error.is_critical());
}

#[test]
fn errors_of_normal_operations_are_not_critical() {
    let text = || "x".to_string();
    assert!(!BlockBuildingHelperError::FinalizeError(FinalizeError::ConsistentDbView(text())).is_critical());
    assert!(BlockBuildingHelperError::FinalizeError(FinalizeError::Other(text())).is_critical());
    assert!(BlockBuildingHelperError::InsertPayoutTxErr(InsertPayoutTxErr::Other(text())).is_critical());
    assert!(BlockBuildingHelperError::ProviderError(ProviderError::Access(text())).is_critical());
    assert!(BlockBuildingHelperError::PreBlockCallFailed.is_critical());
    assert!(BlockBuildingHelperError::BlockFinalizedIncorrectly.is_critical());
    assert!(BlockBuildingHelperError::BundleConsistencyCheckFailed(text()).is_critical());
    assert!(BlockBuildingHelperError::HistoricalBlockError(text()).is_critical());
    assert!(BlockBuildingHelperError::UnableToEstimatePayoutGas(text()).is_critical());
}

#[test]
fn missing_constraints_are_appended_before_the_payout() {
    let mut helper = helper(&[1, 2, 3, 2], 50);
    let _ = helper.commit_order(&order(1), 0, included(1, holding(10, vec![info(1, 10)])));
    let (f, action) = perform(helper.finalize_block(u256(60), i256(-2), None));
    assert!(matches!(
        action,
        FinalizeAction::DecodeConstraint { index: 0, payload } if payload == vec![1]
    ));
    // The first one is in the block already.
    let (f, action) = perform(f.advance(FinalizeEvent::Decoded(tx(1))));
    assert!(matches!(action, FinalizeAction::DecodeConstraint { index: 1, .. }));
    // The second one is appended; the coinbase loses by it.
    let (f, action) = perform(f.advance(FinalizeEvent::Decoded(tx(2))));
    assert!(matches!(
        action,
        FinalizeAction::ExecuteConstraint { index: 1, raw_tx } if raw_tx == vec![2; 40]
    ));
    let (f, _) = perform(f.advance(FinalizeEvent::Committed(info(2, -7))));
    // The third one is appended; the coinbase gains by it.
    let (f, _) = perform(f.advance(FinalizeEvent::Decoded(tx(3))));
    let (f, _) = perform(f.advance(FinalizeEvent::Committed(info(3, 4))));
    // The fourth is the second again, which is in the block by now.
    let (f, action) = perform(f.advance(FinalizeEvent::Decoded(tx(2))));
    assert!(matches!(
        action,
        FinalizeAction::InsertPayout { payout_tx_gas: 21000, payout_tx_value, adjust: false }
            if payout_tx_value == u256(60)
    ));
    let verdicts: Vec<(char, [u8; 32])> = f
        .verdicts()
        .iter()
        .map(|v| match v {
            ConstraintVerdict::AlreadyIncluded(h) => ('i', *h),
            ConstraintVerdict::Appended(h) => ('a', *h),
        })
        .collect();
    assert_eq!(
        verdicts,
        vec![('i', [1u8; 32]), ('a', [2u8; 32]), ('a', [3u8; 32]), ('i', [2u8; 32])]
    );
    // A failed payout shows what the block holds by then.
    let (helper, error, cancel_slot) =
        failure(f.advance(FinalizeEvent::PayoutFailed(InsertPayoutTxErr::ProfitTooLow)));
    assert!(!cancel_slot && !error.is_critical());
    let trace = helper.built_block_trace();
    assert_eq!(trace.coinbase_reward, u256(10));
    assert_eq!(trace.appended_constraint_txs, vec![[2u8; 32], [3u8; 32]]);
    // The failed finalization is done again; the profit with the constraints is the reward.
    let (f, _) = perform(helper.finalize_block(u256(60), i256(-2), None));
    let (helper, _, _) = failure(f.advance(FinalizeEvent::PayloadUndecodable("p".to_string())));
    assert_eq!(helper.built_block_trace().coinbase_reward, u256(7));
    assert_eq!(helper.partial_block().space_used.gas, 5000 + 2 * 21000);
    assert_eq!(helper.partial_block().space_used.rlp_length, 3 * 40);
    assert_eq!(helper.partial_block().space_reserved, space(21000));
}

#[test]
fn constraint_that_cannot_be_executed_fails_the_block() {
    let mut helper = helper(&[2, 3], 50);
    let _ = helper.commit_order(&order(1), 0, included(1, holding(10, vec![info(1, 10)])));
    let (f, _) = perform(helper.finalize_block(u256(60), i256(0), None));
    let (f, _) = perform(f.advance(FinalizeEvent::Decoded(tx(2))));
    let (f, _) = perform(f.advance(FinalizeEvent::Committed(info(2, 1))));
    let (f, _) = perform(f.advance(FinalizeEvent::Decoded(tx(3))));
    let (helper, error, cancel_slot) = failure(f.advance(FinalizeEvent::NotCommitted));
    assert!(matches!(
        error,
        BlockBuildingHelperError::ProviderError(ProviderError::ConstraintNotIncluded(h))
            if h == [3u8; 32]
    ));
    assert!(!cancel_slot && error.is_critical());
    // The one that failed used no space and brought no profit.
    assert_eq!(helper.partial_block().space_used.gas, 5000 + 21000);
    assert_eq!(helper.partial_block().coinbase_profit, u256(11));
    assert_eq!(helper.partial_block().executed_tx_infos.len(), 2);
}

#[test]
fn block_by_which_the_coinbase_loses_cannot_pay() {
    let mut helper = helper(&[2], 50);
    let _ = helper.commit_order(&order(1), 0, included(1, holding(10, vec![info(1, 10)])));
    let (f, _) = perform(helper.finalize_block(u256(60), i256(0), None));
    let (f, _) = perform(f.advance(FinalizeEvent::Decoded(tx(2))));
    let (helper, error, _) = failure(f.advance(FinalizeEvent::Committed(info(2, -11))));
    assert!(matches!(
        error,
        BlockBuildingHelperError::InsertPayoutTxErr(InsertPayoutTxErr::ProfitTooLow)
    ));
    assert_eq!(helper.partial_block().coinbase_profit, u256(0));
    // A loss of all the profit is borne.
    let mut helper = self::helper(&[2], 50);
    let _ = helper.commit_order(&order(1), 0, included(1, holding(10, vec![info(1, 10)])));
    let (f, _) = perform(helper.finalize_block(u256(60), i256(0), None));
    let (f, _) = perform(f.advance(FinalizeEvent::Decoded(tx(2))));
    perform(f.advance(FinalizeEvent::Committed(info(2, -10))));
}

#[test]
fn answer_for_another_transaction_is_not_taken() {
    let (f, _) = perform(helper(&[1], 0).finalize_block(u256(1), i256(0), None));
    let (f, _) = perform(f.advance(FinalizeEvent::Decoded(tx(1))));
    let FinalizeStep::Unexpected(f) = f.advance(FinalizeEvent::Committed(info(2, 0))) else {
        panic!("taken");
    };
    let (_, action) = perform(f.advance(FinalizeEvent::Committed(info(1, 0))));
    assert!(matches!(action, FinalizeAction::InsertPayout { .. }));
}

#[test]
fn constraint_that_the_block_held_is_proved() {
    let mut helper = helper(&[1], 50);
    let _ = helper.commit_order(&order(1), 0, included(1, holding(10, vec![info(1, 10)])));
    let (f, _) = perform(helper.finalize_block(u256(60), i256(0), None));
    let (f, _) = perform(f.advance(FinalizeEvent::Decoded(tx(1))));
    let paid = holding(0, vec![info(1, 10), info(99, 0)]);
    let (f, _) = perform(f.advance(FinalizeEvent::PayoutInserted(paid)));
    let (f, _) = perform(f.advance(FinalizeEvent::BlockValued(u256(61))));
    let (f, _) = perform(f.advance(FinalizeEvent::Balance(u256(50))));
    let (f, _) = perform(f.advance(FinalizeEvent::BundlesConsistent));
    let FinalizeStep::Finished(_, FinalizeOutcome::Finalized(result, _)) =
        f.advance(FinalizeEvent::Sealed(report(33)))
    else {
        panic!("not finalized");
    };
    let trace = &result.block.trace;
    assert!(trace.appended_constraint_txs.is_empty());
    assert_eq!(trace.constraint_tx_hashes(), vec![[1u8; 32]]);
    let proofs = &trace.constraint_proofs;
    assert_eq!((proofs.proofs.len(), proofs.proofs[0].tx_hash), (1, [1u8; 32]));
    assert_eq!(
        TransactionTrieBuilder::new()
            .verify_proof(0, &proofs.proofs[0].proof, &proofs.transactions_root)
            .unwrap(),
        vec![1u8; 40]
    );
}

#[test]
fn finished_block_is_proved_and_valued() {
    let mut helper = helper(&[1], 50);
    let partial = holding(10, vec![info(5, 10)]);
    let _ = helper.commit_order(&order(5), 0, included(5, partial));
    let (f, _) = perform(helper.finalize_block(u256(60), i256(-2), Some(u256(4))));
    let (f, _) = perform(f.advance(FinalizeEvent::Decoded(tx(1))));
    let (f, _) = perform(f.advance(FinalizeEvent::Committed(info(1, 2))));
    let paid = holding(0, vec![info(5, 10), info(1, 2), info(99, 0)]);
    let (f, action) = perform(f.advance(FinalizeEvent::PayoutInserted(paid)));
    assert!(matches!(action, FinalizeAction::ValueBlock { payout_tx_gas: 21000 }));
    let (f, _) = perform(f.advance(FinalizeEvent::BlockValued(u256(61))));
    let (f, _) = perform(f.advance(FinalizeEvent::Balance(u256(115))));
    let (f, _) = perform(f.advance(FinalizeEvent::BundlesConsistent));
    let FinalizeStep::Finished(helper, FinalizeOutcome::Finalized(result, metrics)) =
        f.advance(FinalizeEvent::Sealed(report(33)))
    else {
        panic!("not finalized");
    };
    assert_eq!((metrics.txs, metrics.blobs), (2, 1));
    assert_eq!((metrics.gas_used, metrics.sim_gas_used), (900, 950));
    let block = result.block;
    assert_eq!(block.builder_name, "builder");
    assert_eq!(block.sealed_block.hash, [6u8; 32]);
    assert_eq!(block.txs_blobs_sidecars, vec![vec![1]]);
    assert_eq!(block.execution_requests, vec![vec![4]]);
    assert_eq!(block.bid_adjustments, vec![vec![5]]);
    let trace = &block.trace;
    // The fee recipient gained more than the payout.
    assert_eq!(trace.bid_value, u256(65));
    assert_eq!(trace.true_bid_value, u256(61));
    assert_eq!(trace.subsidy, i256(-2));
    assert_eq!(trace.mev_blocker_price, u256(3));
    assert_eq!(trace.seen_competition_bid, Some(u256(4)));
    assert_eq!((trace.finalize_time, trace.root_hash_time), (33, 11));
    assert_eq!(trace.finalize_adjust_time, 0);
    assert_eq!(trace.orders_sealed_at.unix_nanos, 77);
    assert_eq!(trace.appended_constraint_txs, vec![[1u8; 32]]);
    let proofs = &trace.constraint_proofs;
    assert_eq!((proofs.block_number, proofs.proofs.len()), (100, 1));
    assert_eq!(proofs.proofs[0].tx_index, 1);
    let verifier = TransactionTrieBuilder::new();
    assert_eq!(
        verifier.verify_proof(1, &proofs.proofs[0].proof, &proofs.transactions_root).unwrap(),
        vec![1u8; 40]
    );
    // Now the block can be adjusted, and not be finalized again.
    let (helper, error, _) = failure(helper.finalize_block(u256(1), i256(0), None));
    assert!(matches!(error, BlockBuildingHelperError::BlockFinalizedIncorrectly));
    let (f, action) = perform(helper.adjust_finalized_block(u256(70), i256(0), None));
    assert!(matches!(action, FinalizeAction::RevertToPrefinalized));
    let reverted = holding(12, vec![info(5, 10), info(1, 2)]);
    let (f, _) = perform(f.advance(FinalizeEvent::Reverted(reverted)));
    // The constraint transaction is in the block by now.
    let (f, action) = perform(f.advance(FinalizeEvent::Decoded(tx(1))));
    assert!(matches!(action, FinalizeAction::InsertPayout { adjust: true, .. }));
    let paid = holding(0, vec![info(5, 10), info(1, 2), info(98, 0)]);
    let (f, _) = perform(f.advance(FinalizeEvent::PayoutInserted(paid)));
    let (f, _) = perform(f.advance(FinalizeEvent::BlockValued(u256(61))));
    let (f, action) = perform(f.advance(FinalizeEvent::Balance(u256(40))));
    assert!(matches!(action, FinalizeAction::Seal { adjust: true }));
    let FinalizeStep::Finished(_, FinalizeOutcome::Finalized(result, _)) =
        f.advance(FinalizeEvent::Sealed(report(44)))
    else {
        panic!("not adjusted");
    };
    let trace = &result.block.trace;
    assert_eq!(trace.bid_value, u256(70));
    assert_eq!(trace.coinbase_reward, u256(12));
    assert_eq!((trace.finalize_adjust_time, trace.finalize_time), (44, 33));
    assert_eq!(trace.appended_constraint_txs, vec![[1u8; 32]]);
}

#[test]
fn new_block_cannot_be_adjusted() {
    let (helper, error, cancel_slot) =
        failure(helper(&[1], 0).adjust_finalized_block(u256(1), i256(0), None));
    assert!(matches!(error, BlockBuildingHelperError::BlockFinalizedIncorrectly));
    assert!(!cancel_slot);
    perform(helper.finalize_block(u256(1), i256(0), None));
}

#[test]
fn profit_wraps_around() {
    let mut helper = helper(&[2, 3], 0);
    let most = U256 { limbs: [u64::MAX; 4] };
    let full = PartialBlock { coinbase_profit: most, ..PartialBlock::new() };
    let _ = helper.commit_order(&order(1), 0, included(1, full));
    let (f, _) = perform(helper.finalize_block(u256(0), i256(0), None));
    let (f, _) = perform(f.advance(FinalizeEvent::Decoded(tx(2))));
    let (f, _) = perform(f.advance(FinalizeEvent::Committed(info(2, 5))));
    let (helper, error, _) =
        failure(f.advance(FinalizeEvent::TransactionUndecodable("t".to_string())));
    assert!(matches!(
        error,
        BlockBuildingHelperError::ProviderError(ProviderError::UndecodableTransaction(_))
    ));
    let (f, _) = perform(helper.finalize_block(u256(0), i256(0), None));
    let (helper, _, _) = failure(f.advance(FinalizeEvent::PayloadUndecodable("p".to_string())));
    assert_eq!(helper.built_block_trace().coinbase_reward, u256(4));
}

#[test]
fn finalization_fails_where_a_step_does() {
    let (f, _) = perform(helper(&[1], 0).finalize_block(u256(1), i256(0), None));
    let (helper_after, error, cancel_slot) =
        failure(f.advance(FinalizeEvent::PayloadUndecodable("p".to_string())));
    assert!(matches!(
        error,
        BlockBuildingHelperError::ProviderError(ProviderError::UndecodablePayload(e)) if e == "p"
    ));
    assert!(!cancel_slot);
    let executing = |helper: BlockBuildingHelperFromProvider| {
        let (f, _) = perform(helper.finalize_block(u256(1), i256(0), None));
        perform(f.advance(FinalizeEvent::Decoded(tx(1)))).0
    };
    let (helper_after, error, _) = failure(
        executing(helper_after).advance(FinalizeEvent::RawTransactionUndecodable("r".to_string())),
    );
    assert!(matches!(
        error,
        BlockBuildingHelperError::ProviderError(ProviderError::UndecodableTransaction(_))
    ));
    let (helper_after, error, _) =
        failure(executing(helper_after).advance(FinalizeEvent::ExecutionFailed("c".to_string())));
    assert!(matches!(
        error,
        BlockBuildingHelperError::ProviderError(ProviderError::CriticalExecution(_))
    ));
    let (helper_after, _, _) = failure(executing(helper_after).advance(FinalizeEvent::NotCommitted));
    // Once the transaction was executed, a retry finds it in the block.
    let f = executing(helper_after);
    let (f, _) = perform(f.advance(FinalizeEvent::Committed(info(1, 0))));
    let (helper_after, _, _) =
        failure(f.advance(FinalizeEvent::PayoutFailed(InsertPayoutTxErr::ProfitTooLow)));
    let paying = |helper: BlockBuildingHelperFromProvider| {
        let (f, _) = perform(helper.finalize_block(u256(1), i256(0), None));
        perform(f.advance(FinalizeEvent::Decoded(tx(1)))).0
    };
    let valuing = |helper: BlockBuildingHelperFromProvider| {
        let paid = holding(0, vec![info(1, 0)]);
        perform(paying(helper).advance(FinalizeEvent::PayoutInserted(paid))).0
    };
    let (helper_after, error, _) =
        failure(valuing(helper_after).advance(FinalizeEvent::ValueFailed(
            InsertPayoutTxErr::Other("v".to_string()),
        )));
    assert!(matches!(error, BlockBuildingHelperError::InsertPayoutTxErr(_)));
    let balancing = |helper: BlockBuildingHelperFromProvider| {
        perform(valuing(helper).advance(FinalizeEvent::BlockValued(u256(1)))).0
    };
    let (helper_after, error, _) =
        failure(balancing(helper_after).advance(FinalizeEvent::BalanceFailed("b".to_string())));
    assert!(matches!(
        error,
        BlockBuildingHelperError::ProviderError(ProviderError::Access(_))
    ));
    let verifying = |helper: BlockBuildingHelperFromProvider| {
        perform(balancing(helper).advance(FinalizeEvent::Balance(u256(1)))).0
    };
    let (_, error, _) = failure(
        verifying(helper_after).advance(FinalizeEvent::BundlesInconsistent("i".to_string())),
    );
    assert!(matches!(error, BlockBuildingHelperError::BundleConsistencyCheckFailed(_)));
}

#[test]
fn lost_constraint_transaction_cannot_be_proved() {
    let (f, _) = perform(helper(&[1], 0).finalize_block(u256(1), i256(0), None));
    let (f, _) = perform(f.advance(FinalizeEvent::Decoded(tx(1))));
    let (f, _) = perform(f.advance(FinalizeEvent::Committed(info(1, 0))));
    // The block that comes back from the payout does not hold it.
    let (f, _) = perform(f.advance(FinalizeEvent::PayoutInserted(PartialBlock::new())));
    let (f, _) = perform(f.advance(FinalizeEvent::BlockValued(u256(1))));
    let (_, error, _) = failure(f.advance(FinalizeEvent::Balance(u256(1))));
    assert!(matches!(
        error,
        BlockBuildingHelperError::ProviderError(ProviderError::Unproved(
            ConstraintProofError::TxHashNotFound(h)
        )) if h == [1u8; 32]
    ));
}

#[test]
fn slot_is_cancelled_where_the_head_has_moved() {
    let f = seal(helper(&[], 50), 60, 40);
    let error = FinalizeError::ConsistentDbView("moved".to_string());
    let (_, error, cancel_slot) = failure(f.advance(FinalizeEvent::SealFailed(error)));
    assert!(cancel_slot && !error.is_critical());
    let f = seal(helper(&[], 50), 60, 40);
    let error = FinalizeError::Other("else".to_string());
    let (helper, error, cancel_slot) = failure(f.advance(FinalizeEvent::SealFailed(error)));
    assert!(!cancel_slot && error.is_critical());
    // The balance fell, so the payout is the bid.
    assert_eq!(helper.built_block_trace().bid_value, u256(60));
    perform(helper.finalize_block(u256(1), i256(0), None));
}

#[test]
fn answer_out_of_place_changes_nothing() {
    let (f, _) = perform(helper(&[1], 0).finalize_block(u256(1), i256(0), None));
    let FinalizeStep::Unexpected(f) = f.advance(FinalizeEvent::NotCommitted) else {
        panic!("taken");
    };
    let (_, action) = perform(f.advance(FinalizeEvent::Decoded(tx(1))));
    assert!(matches!(action, FinalizeAction::ExecuteConstraint { index: 0, .. }));
}
