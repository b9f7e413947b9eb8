//! A block under construction: orders are committed to it, then it is finalized.

use crate::block_output::constraint_prover::{
    all_in_block, first_missing, inclusion_proofs, prove_transaction_inclusion,
};
use crate::building::built_block_trace::{
    copy_all, new_trace, BuiltBlockId, BuiltBlockTrace, ExecutionResult, OrderId, OrderStatistics,
    SimValue, SimulatedOrder, TraceView, TxInfo,
};
use crate::building::constraint_proofs::{
    hash_values, transaction_hashes, transaction_values, ConstraintProofError,
};
use crate::building::finalization::{
    begin_execution, constraint_hashes, finalize_step, is_outcome, next_constraint,
    proofs_lead_to_transactions, settled, start_step, value_recorded, with_appended, Block,
    BlockMetrics, ConstraintVerdict, FinalizationView, FinalizeAction, FinalizeBlockResult,
    FinalizeEvent, FinalizeOutcome, FinalizeRequest, OutcomeView, SealReport, Stage, StepView,
};
use crate::building::helper_error::{BlockBuildingHelperError, InsertPayoutTxErr, ProviderError};
use crate::building::partial_block::{
    executed_transactions, no_space, BlockBuildingContext, BlockSpace, ContextView, PartialBlock,
    PartialBlockView, TransactionExecutionInfo,
};
use crate::primitives::bytes::{copy_bytes, same_hash, B256};
use crate::primitives::clock::{now_utc, Nanos, UtcTime};
use crate::primitives::numbers::{checked_sub, larger, with_delta, I256, U256};
use vstd::prelude::*;

verus! {

/// What a block under construction consists of.
pub struct HelperView {
    pub fee_recipient_balance_start: int,
    pub partial_block: PartialBlockView,
    pub payout_tx_gas: u64,
    pub builder_name: Seq<char>,
    pub context: ContextView,
    pub trace: TraceView,
    /// Whether the block was finalized, so that it can be adjusted
    pub adjustable: bool,
    pub max_order_execution_duration_warning: Option<Nanos>,
}

/// Trait to help building blocks. It still needs to be finished (finalize_block) to set the payout
/// tx and computing some extra stuff (eg: root hash).
/// Txs can be added before finishing it.
/// Typical usage:
/// 1 - Create it some how.
/// 2 - Call lots of commit_order.
/// 3 - Call set_trace_fill_time when you are done calling commit_order.
/// 4 - Call finalize_block.
pub trait BlockBuildingHelper: Send + Sync + Sized {
    /// What the block consists of.
    spec fn model(&self) -> HelperView;

    /// Whether the block is in order.
    spec fn valid(&self) -> bool;

    /// A copy of the block.
    fn box_clone(&self) -> (copy: Box<Self>)
        requires
            self.valid(),
        ensures
            copy.valid(),
            copy.model() == self.model(),
    ;

    /// Takes what came of trying to add an order to the end of the block: it is recorded and
    /// handed on, with what is to be reported of it.
    /// Block state changes only on Ok(Ok)
    fn commit_order<E, C>(
        &mut self,
        order: &SimulatedOrder,
        sim_time: Nanos,
        outcome: Result<Result<OrderExecution, E>, C>,
    ) -> (committed: (Result<Result<ExecutionResult, E>, C>, CommitReport))
        requires
            old(self).valid(),
            outcome matches Ok(Ok(execution)) ==> execution.partial_block.wf(),
        ensures
            final(self).valid(),
            final(self).model() == with_order(old(self).model(), *order, outcome),
            committed.0 == handed_on(outcome),
            is_commit_report(committed.1, old(self).model(), *order, sim_time, outcome),
            match outcome {
                Ok(Ok(execution)) => {
                    &&& final(self).model().partial_block == execution.partial_block@
                    &&& committed.0 matches Ok(Ok(result))
                    &&& result == execution.result
                },
                _ => final(self).model().partial_block == old(self).model().partial_block,
            },
    ;

    /// Call set the trace fill_time
    fn set_trace_fill_time(&mut self, time: Nanos)
        ensures
            old(self).valid() ==> final(self).valid(),
            final(self).model() == (HelperView {
                trace: TraceView { fill_time: time, ..old(self).model().trace },
                ..old(self).model()
            }),
    ;

    /// If not set the trace will default to creation time.
    fn set_trace_orders_closed_at(&mut self, orders_closed_at: UtcTime)
        ensures
            old(self).valid() ==> final(self).valid(),
            final(self).model() == (HelperView {
                trace: TraceView { orders_closed_at, ..old(self).model().trace },
                ..old(self).model()
            }),
    ;

    fn set_filtered_build_statistics(
        &mut self,
        considered_orders_statistics: OrderStatistics,
        failed_orders_statistics: OrderStatistics,
    )
        ensures
            old(self).valid() ==> final(self).valid(),
            final(self).model() == (HelperView {
                trace: TraceView {
                    considered_orders: considered_orders_statistics.orders@,
                    failed_orders: failed_orders_statistics.orders@,
                    ..old(self).model().trace
                },
                ..old(self).model()
            }),
    ;

    /// Gas reserved for the final payout txs from coinbase to fee recipient.
    fn payout_tx_gas(&self) -> (gas: u64)
        ensures
            gas == self.model().payout_tx_gas,
    ;

    /// Accumulated coinbase delta - gas cost of final payout tx (if can_add_payout_tx).
    /// This is the maximum profit that can reach the final fee recipient (max bid!).
    /// Maximum payout_tx_value value to pass to finalize_block.
    /// Takes what the execution layer computes for the block and its payout_tx_gas.
    /// The main reason to get an error is if profit is so low that we can't pay the payout tx
    /// (that would mean negative block value!).
    fn true_block_value(&self, computed: Result<U256, InsertPayoutTxErr>) -> (value: Result<
        U256,
        BlockBuildingHelperError,
    >)
        ensures
            value == match computed {
                Ok(value) => Ok::<U256, BlockBuildingHelperError>(value),
                Err(e) => Err::<U256, BlockBuildingHelperError>(
                    BlockBuildingHelperError::InsertPayoutTxErr(e),
                ),
            },
    {
        match computed {
            Ok(value) => Ok(value),
            Err(e) => Err(BlockBuildingHelperError::InsertPayoutTxErr(e)),
        }
    }

    /// Finalize block for submission.
    /// subsidy is how much of payout_tx_value we consider to be subsidy.
    fn finalize_block(
        self,
        payout_tx_value: U256,
        subsidy: I256,
        seen_competition_bid: Option<U256>,
    ) -> (step: FinalizeStep)
        requires
            self.valid(),
        ensures
            step.is(
                start_step(
                    self.model(),
                    (FinalizeRequest {
                        payout_tx_value,
                        subsidy,
                        seen_competition_bid,
                        adjust: false,
                    }),
                ),
            ),
    ;

    /// adjust_finalized_block is for a block that was previously finalized with finalize_block.
    fn adjust_finalized_block(
        self,
        payout_tx_value: U256,
        subsidy: I256,
        seen_competition_bid: Option<U256>,
    ) -> (step: FinalizeStep)
        requires
            self.valid(),
        ensures
            step.is(
                start_step(
                    self.model(),
                    (FinalizeRequest {
                        payout_tx_value,
                        subsidy,
                        seen_competition_bid,
                        adjust: true,
                    }),
                ),
            ),
    ;

    /// BuiltBlockTrace for current state.
    fn built_block_trace(&self) -> (trace: &BuiltBlockTrace)
        ensures
            trace@ == self.model().trace,
    ;

    fn id(&self) -> (id: BuiltBlockId)
        ensures
            id == self.model().trace.build_block_id,
    {
        self.built_block_trace().build_block_id
    }

    /// BlockBuildingContext used for building.
    fn building_context(&self) -> (context: &BlockBuildingContext)
        ensures
            context@ == self.model().context,
    ;

    /// Name of the builder that pregenerated this block.
    /// BE CAREFUL: Might be ambiguous if several building parts were involved...
    fn builder_name(&self) -> (name: &str)
        ensures
            name@ == self.model().builder_name,
    ;
}

/// What executing an order gave: its result, and the block with it.
#[derive(Debug)]
pub struct OrderExecution {
    pub result: ExecutionResult,
    pub partial_block: PartialBlock,
}

/// How the execution of a slow order went.
#[derive(Debug, Clone, Copy, PartialEq, Eq, Structural)]
pub enum SlowExecution {
    /// Slow order ok execution
    Included,
    /// Slow order failed execution
    Failed,
    /// Slow order critical execution error
    Critical,
}

/// What is reported of an order whose execution took too long.
#[derive(Debug, Clone)]
pub struct SlowOrder {
    pub execution: SlowExecution,
    pub sim_time: Nanos,
    pub builder_name: String,
    pub id: OrderId,
    /// What simulating it at the top of the block showed
    pub tob_sim_value: SimValue,
    pub txs: Vec<TxInfo>,
    /// What came of it, where it was included
    pub included: Option<ExecutionResult>,
}

/// What is reported of an order that was tried.
#[derive(Debug, Clone)]
pub struct CommitReport {
    pub sim_time: Nanos,
    pub sim_ok: bool,
    pub slow: Option<SlowOrder>,
}

/// A block after an order was tried on it.
pub open spec fn with_order<E, C>(
    helper: HelperView,
    order: SimulatedOrder,
    outcome: Result<Result<OrderExecution, E>, C>,
) -> HelperView {
    let considered = TraceView {
        considered_orders: helper.trace.considered_orders.push(order.id),
        ..helper.trace
    };
    match outcome {
        Ok(Ok(execution)) => HelperView {
            partial_block: execution.partial_block@,
            trace: TraceView {
                included_orders: considered.included_orders.push(execution.result),
                ..considered
            },
            ..helper
        },
        Ok(Err(_)) => HelperView {
            trace: TraceView {
                failed_orders: considered.failed_orders.push(order.id),
                ..considered
            },
            ..helper
        },
        Err(_) => HelperView { trace: considered, ..helper },
    }
}

/// The outcome of trying an order, as far as it is handed on.
pub open spec fn handed_on<E, C>(outcome: Result<Result<OrderExecution, E>, C>) -> Result<
    Result<ExecutionResult, E>,
    C,
> {
    match outcome {
        Ok(Ok(execution)) => Ok(Ok(execution.result)),
        Ok(Err(e)) => Ok(Err(e)),
        Err(e) => Err(e),
    }
}

/// Whether an order that took this long is reported as slow.
pub open spec fn is_slow(max: Option<Nanos>, sim_time: Nanos) -> bool {
    max matches Some(max) && sim_time > max
}

/// Whether a slow order is reported as it should be.
pub open spec fn is_slow_report<E, C>(
    slow: SlowOrder,
    helper: HelperView,
    order: SimulatedOrder,
    sim_time: Nanos,
    outcome: Result<Result<OrderExecution, E>, C>,
) -> bool {
    &&& slow.execution == match outcome {
        Ok(Ok(_)) => SlowExecution::Included,
        Ok(Err(_)) => SlowExecution::Failed,
        Err(_) => SlowExecution::Critical,
    }
    &&& slow.sim_time == sim_time
    &&& slow.builder_name@ == helper.builder_name
    &&& slow.id == order.id
    &&& slow.tob_sim_value == order.sim_value
    &&& slow.included == match outcome {
        Ok(Ok(execution)) => Some(execution.result),
        _ => None,
    }
    &&& slow.txs@ == order.txs@
}

/// Whether an order that was tried is reported as it should be.
pub open spec fn is_commit_report<E, C>(
    report: CommitReport,
    helper: HelperView,
    order: SimulatedOrder,
    sim_time: Nanos,
    outcome: Result<Result<OrderExecution, E>, C>,
) -> bool {
    &&& report.sim_time == sim_time
    &&& report.sim_ok == (outcome matches Ok(Ok(_)))
    &&& report.slow is Some <==> is_slow(helper.max_order_execution_duration_warning, sim_time)
    &&& report.slow matches Some(slow) ==> is_slow_report(slow, helper, order, sim_time, outcome)
}

/// The transactions of a block change only with an order that was included.
pub proof fn block_changes_only_with_an_included_order<E, C>(
    helper: HelperView,
    order: SimulatedOrder,
    outcome: Result<Result<OrderExecution, E>, C>,
)
    ensures
        !(outcome matches Ok(Ok(_))) ==> with_order(helper, order, outcome).partial_block
            == helper.partial_block,
        with_order(helper, order, outcome).adjustable == helper.adjustable,
        with_order(helper, order, outcome).context == helper.context,
{
}

/// After an order was included, the block is the one that executing this order gave, whatever the
/// block was before, and the order's result is the last that is recorded as included. The order is
/// counted as considered, and nothing else in the record changes.
pub proof fn included_order_gives_the_block<E, C>(
    helper: HelperView,
    order: SimulatedOrder,
    execution: OrderExecution,
)
    ensures
        ({
            let after = with_order(helper, order, Ok::<Result<OrderExecution, E>, C>(Ok(execution)));
            &&& after.partial_block.transactions == execution.partial_block@.transactions
            &&& after.partial_block.coinbase_profit == execution.partial_block.coinbase_profit@
            &&& after.partial_block.space_used == execution.partial_block.space_used
            &&& after.partial_block.space_reserved == execution.partial_block.space_reserved
            &&& after.trace.included_orders.len() == helper.trace.included_orders.len() + 1
            &&& after.trace.included_orders.last() == execution.result
            &&& after.trace.included_orders.drop_last() == helper.trace.included_orders
            &&& after.trace.considered_orders == helper.trace.considered_orders.push(order.id)
            &&& after.trace == (TraceView {
                included_orders: after.trace.included_orders,
                considered_orders: after.trace.considered_orders,
                ..helper.trace
            })
            &&& after == (HelperView {
                partial_block: after.partial_block,
                trace: after.trace,
                ..helper
            })
        }),
{
    let after = with_order(helper, order, Ok::<Result<OrderExecution, E>, C>(Ok(execution)));
    assert(after.trace.included_orders.drop_last() =~= helper.trace.included_orders);
}

/// An order that was not included leaves the block as it was. It is counted as considered, and, as
/// long as the failure was not a critical one, as failed; nothing else in the record changes.
pub proof fn failed_order_leaves_the_block<E, C>(
    helper: HelperView,
    order: SimulatedOrder,
    error: E,
    critical: C,
)
    ensures
        ({
            let after = with_order(helper, order, Ok::<Result<OrderExecution, E>, C>(Err(error)));
            &&& after.partial_block == helper.partial_block
            &&& after.trace == (TraceView {
                considered_orders: helper.trace.considered_orders.push(order.id),
                failed_orders: helper.trace.failed_orders.push(order.id),
                ..helper.trace
            })
            &&& after == (HelperView { trace: after.trace, ..helper })
        }),
        ({
            let after = with_order(
                helper,
                order,
                Err::<Result<OrderExecution, E>, C>(critical),
            );
            &&& after.partial_block == helper.partial_block
            &&& after.trace == (TraceView {
                considered_orders: helper.trace.considered_orders.push(order.id),
                ..helper.trace
            })
            &&& after == (HelperView { trace: after.trace, ..helper })
        }),
{
}

/// Of two orders that were tried one after the other, the second one decides what the block holds
/// where it was included, and the first one does where the second was not.
pub proof fn last_included_order_decides<E, C>(
    helper: HelperView,
    first: SimulatedOrder,
    first_outcome: Result<Result<OrderExecution, E>, C>,
    second: SimulatedOrder,
    second_outcome: Result<Result<OrderExecution, E>, C>,
)
    ensures
        ({
            let after = with_order(
                with_order(helper, first, first_outcome),
                second,
                second_outcome,
            );
            &&& after.partial_block == match (first_outcome, second_outcome) {
                (_, Ok(Ok(execution))) => execution.partial_block@,
                (Ok(Ok(execution)), _) => execution.partial_block@,
                _ => helper.partial_block,
            }
            &&& after.trace.considered_orders == helper.trace.considered_orders.push(first.id).push(
                second.id,
            )
        }),
{
}

/// What is handed on of an order is what came of executing it, and the report tells it: whether the
/// order was included, how long it took, and, where that was longer than the limit, what the order
/// was and how it went.
pub proof fn order_is_reported<E, C>(
    report: CommitReport,
    helper: HelperView,
    order: SimulatedOrder,
    sim_time: Nanos,
    outcome: Result<Result<OrderExecution, E>, C>,
)
    requires
        is_commit_report(report, helper, order, sim_time, outcome),
    ensures
        match outcome {
            Ok(Ok(execution)) => handed_on(outcome) == Ok::<Result<ExecutionResult, E>, C>(
                Ok(execution.result),
            ),
            Ok(Err(e)) => handed_on(outcome) == Ok::<Result<ExecutionResult, E>, C>(Err(e)),
            Err(e) => handed_on(outcome) == Err::<Result<ExecutionResult, E>, C>(e),
        },
        report.sim_time == sim_time,
        report.sim_ok <==> (outcome is Ok && outcome->Ok_0 is Ok),
        report.slow is Some <==> (helper.max_order_execution_duration_warning is Some && sim_time
            > helper.max_order_execution_duration_warning->0),
        report.slow matches Some(slow) ==> {
            &&& slow.sim_time == sim_time
            &&& slow.builder_name@ == helper.builder_name
            &&& slow.id == order.id
            &&& slow.tob_sim_value == order.sim_value
            &&& slow.txs@ == order.txs@
            &&& match outcome {
                Ok(Ok(execution)) => slow.execution is Included && slow.included == Some(
                    execution.result,
                ),
                Ok(Err(_)) => slow.execution is Failed && slow.included is None,
                Err(_) => slow.execution is Critical && slow.included is None,
            }
        },
{
}

/// A block under construction, on top of the state of a provider.
pub struct BlockBuildingHelperFromProvider {
    /// Balance of fee recipient before building started.
    fee_recipient_balance_start: U256,
    /// Transactions that were executed so far.
    partial_block: PartialBlock,
    /// Gas reserved for the final payout txs from coinbase to fee recipient.
    payout_tx_gas: u64,
    /// Name of the builder that pregenerated this block.
    /// Might be ambiguous if several building parts were involved...
    builder_name: String,
    building_ctx: BlockBuildingContext,
    built_block_trace: BuiltBlockTrace,
    /// Whether the block was finalized, so that it can be adjusted.
    adjustable: bool,
    /// If an order execution duration (commit_order) is greater than this, the order is reported
    /// as slow.
    max_order_execution_duration_warning: Option<Nanos>,
}

impl View for BlockBuildingHelperFromProvider {
    type V = HelperView;

    closed spec fn view(&self) -> HelperView {
        HelperView {
            fee_recipient_balance_start: self.fee_recipient_balance_start@,
            partial_block: self.partial_block@,
            payout_tx_gas: self.payout_tx_gas,
            builder_name: self.builder_name@,
            context: self.building_ctx@,
            trace: self.built_block_trace@,
            adjustable: self.adjustable,
            max_order_execution_duration_warning: self.max_order_execution_duration_warning,
        }
    }
}

/// A finalization under way, waiting for the answer to its last action.
pub struct Finalization {
    helper: BlockBuildingHelperFromProvider,
    request: FinalizeRequest,
    stage: Stage,
    /// Hashes of the transactions that were in the block before constraints were appended
    executed: Ghost<Seq<Seq<u8>>>,
    verdicts: Vec<ConstraintVerdict>,
}

impl View for Finalization {
    type V = FinalizationView;

    closed spec fn view(&self) -> FinalizationView {
        FinalizationView {
            helper: self.helper@,
            request: self.request,
            stage: self.stage,
            executed: self.executed@,
            verdicts: self.verdicts@,
        }
    }
}

/// Where finalization stands after an answer.
pub enum FinalizeStep {
    /// It goes on with this action.
    Perform(Finalization, FinalizeAction),
    /// It is over.
    Finished(BlockBuildingHelperFromProvider, FinalizeOutcome),
    /// The answer does not belong to the last action; nothing has changed.
    Unexpected(Finalization),
}

impl FinalizeStep {
    /// Whether the step is the expected one.
    pub open spec fn is(&self, expected: StepView) -> bool {
        match (*self, expected) {
            (FinalizeStep::Perform(f, action), StepView::Perform(g, expected)) => {
                &&& f.wf()
                &&& f@ == g
                &&& action@ == expected
            },
            (FinalizeStep::Finished(helper, outcome), StepView::Finished(h, expected)) => {
                &&& helper.wf()
                &&& helper@ == h
                &&& is_outcome(outcome, expected)
            },
            (FinalizeStep::Unexpected(f), StepView::Unexpected(g)) => f.wf() && f@ == g,
            _ => false,
        }
    }
}

impl Finalization {
    /// The constraints before the one that is dealt with have their verdicts; once the block was
    /// proved to satisfy its constraints, its record holds proofs that verify.
    pub closed spec fn wf(&self) -> bool {
        let constraints = self.helper.building_ctx.constraints@.len();
        &&& self.helper.wf()
        &&& (self.stage is Verifying || self.stage is Sealing) ==> proofs_lead_to_transactions(
            self.helper@,
        )
        &&& match self.stage {
            Stage::Reverting => self.verdicts@.len() == 0,
            Stage::Decoding(index) => index == self.verdicts@.len() && index < constraints,
            Stage::Executing(index, _) => index == self.verdicts@.len() && index < constraints,
            _ => self.verdicts@.len() == constraints,
        }
    }

    /// How the constraints so far were satisfied.
    pub fn verdicts(&self) -> (verdicts: &Vec<ConstraintVerdict>)
        ensures
            verdicts@ == self@.verdicts,
    {
        &self.verdicts
    }

    /// Takes the answer to the last action.
    pub fn advance(self, event: FinalizeEvent) -> (step: FinalizeStep)
        requires
            self.wf(),
            event.wf(),
        ensures
            step.is(finalize_step(self@, event)),
            step matches FinalizeStep::Finished(helper, FinalizeOutcome::Finalized(_, _))
                ==> proofs_lead_to_transactions(helper@),
            step matches FinalizeStep::Perform(
                _,
                FinalizeAction::DecodeConstraint { index, payload },
            ) ==> index < self@.helper.context.constraints.len() && payload@
                == self@.helper.context.constraints[index as int],
            step matches FinalizeStep::Perform(
                _,
                FinalizeAction::ExecuteConstraint { index: _, raw_tx },
            ) ==> (event matches FinalizeEvent::Decoded(tx) && raw_tx@ == tx.rlp@),
            step matches FinalizeStep::Perform(
                _,
                FinalizeAction::InsertPayout { payout_tx_gas, payout_tx_value, adjust },
            ) ==> {
                &&& payout_tx_gas == self@.helper.payout_tx_gas
                &&& payout_tx_value@ == self@.request.payout_tx_value@
                &&& adjust == self@.request.adjust
            },
            step matches FinalizeStep::Finished(
                helper,
                FinalizeOutcome::Finalized(result, metrics),
            ) ==> (event matches FinalizeEvent::Sealed(report) && {
                &&& result.block.sealed_block == report.finalized_block.sealed_block
                &&& result.block.txs_blobs_sidecars == report.finalized_block.txs_blob_sidecars
                &&& result.block.execution_requests == report.finalized_block.execution_requests
                &&& result.block.bid_adjustments == report.finalized_block.bid_adjustments
                &&& result.block.builder_name@ == self@.helper.builder_name
                &&& result.block.trace@ == helper@.trace
                &&& metrics.txs == report.finalized_block.sealed_block.transactions@.len()
                &&& metrics.blobs == report.finalized_block.txs_blob_sidecars@.len()
                &&& metrics.gas_used == report.finalized_block.sealed_block.gas_used
                &&& metrics.sim_gas_used == report.sim_gas_used
            }),
    {
        let ghost f = self@;
        let ghost answer = event;
        let step = self.take_answer(event);
        proof {
            lemma_step_in_words(step, f, answer);
        }
        step
    }

    fn take_answer(self, event: FinalizeEvent) -> (step: FinalizeStep)
        requires
            self.wf(),
            event.wf(),
        ensures
            step.is(finalize_step(self@, event)),
            step matches FinalizeStep::Finished(helper, FinalizeOutcome::Finalized(_, _))
                ==> proofs_lead_to_transactions(helper@),
    {
        match (self.stage, event) {
            (Stage::Reverting, FinalizeEvent::Reverted(block)) => {
                let mut f = self;
                f.helper.partial_block = block;
                f.begin_execution()
            },
            (Stage::Decoding(index), FinalizeEvent::Decoded(tx)) => {
                // Check if this constraint transaction is already included
                if self.helper.partial_block.contains_transaction(&tx.hash) {
                    self.settled(index, ConstraintVerdict::AlreadyIncluded(tx.hash))
                } else {
                    // Constraint transaction not found, append it
                    let mut f = self;
                    f.stage = Stage::Executing(index, tx.hash);
                    FinalizeStep::Perform(
                        f,
                        FinalizeAction::ExecuteConstraint { index, raw_tx: tx.rlp },
                    )
                }
            },
            (Stage::Decoding(_), FinalizeEvent::PayloadUndecodable(e)) => {
                self.provider_failed(ProviderError::UndecodablePayload(e))
            },
            (Stage::Decoding(_), FinalizeEvent::TransactionUndecodable(e)) => {
                self.provider_failed(ProviderError::UndecodableTransaction(e))
            },
            (Stage::Executing(index, hash), FinalizeEvent::Committed(info)) => {
                if !same_hash(&info.tx.hash, &hash) {
                    return FinalizeStep::Unexpected(self);
                }
                assert(info.tx.hash == hash);
                let mut f = self;
                if f.helper.append_constraint_transaction(info) {
                    f.settled(index, ConstraintVerdict::Appended(hash))
                } else {
                    f.failed(
                        BlockBuildingHelperError::InsertPayoutTxErr(
                            InsertPayoutTxErr::ProfitTooLow,
                        ),
                    )
                }
            },
            (Stage::Executing(_, hash), FinalizeEvent::NotCommitted) => {
                // Constraints must be included
                self.provider_failed(ProviderError::ConstraintNotIncluded(hash))
            },
            (Stage::Executing(_, _), FinalizeEvent::RawTransactionUndecodable(e)) => {
                self.provider_failed(ProviderError::UndecodableTransaction(e))
            },
            (Stage::Executing(_, _), FinalizeEvent::ExecutionFailed(e)) => {
                self.provider_failed(ProviderError::CriticalExecution(e))
            },
            (Stage::Paying, FinalizeEvent::PayoutInserted(block)) => {
                let mut f = self;
                f.helper.partial_block = block;
                f.stage = Stage::Valuing;
                let payout_tx_gas = f.helper.payout_tx_gas;
                FinalizeStep::Perform(f, FinalizeAction::ValueBlock { payout_tx_gas })
            },
            (Stage::Paying, FinalizeEvent::PayoutFailed(e)) => {
                self.failed(BlockBuildingHelperError::InsertPayoutTxErr(e))
            },
            (Stage::Valuing, FinalizeEvent::BlockValued(value)) => {
                let mut f = self;
                f.stage = Stage::Balancing(value);
                let account = f.helper.building_ctx.suggested_fee_recipient;
                FinalizeStep::Perform(f, FinalizeAction::ReadBalance { account })
            },
            (Stage::Valuing, FinalizeEvent::ValueFailed(e)) => {
                self.failed(BlockBuildingHelperError::InsertPayoutTxErr(e))
            },
            (Stage::Balancing(value), FinalizeEvent::Balance(balance)) => {
                self.record_value(value, balance)
            },
            (Stage::Balancing(_), FinalizeEvent::BalanceFailed(e)) => {
                self.provider_failed(ProviderError::Access(e))
            },
            (Stage::Verifying, FinalizeEvent::BundlesConsistent) => {
                let mut f = self;
                f.stage = Stage::Sealing;
                let adjust = f.request.adjust;
                FinalizeStep::Perform(f, FinalizeAction::Seal { adjust })
            },
            (Stage::Verifying, FinalizeEvent::BundlesInconsistent(e)) => {
                self.failed(BlockBuildingHelperError::BundleConsistencyCheckFailed(e))
            },
            (Stage::Sealing, FinalizeEvent::Sealed(report)) => self.finish(report),
            (Stage::Sealing, FinalizeEvent::SealFailed(error)) => {
                // Can't build on a head that has moved: the slot is cancelled
                let cancel_slot = error.is_consistent_db_view_err();
                FinalizeStep::Finished(
                    self.helper,
                    FinalizeOutcome::Failed {
                        error: BlockBuildingHelperError::FinalizeError(error),
                        cancel_slot,
                    },
                )
            },
            _ => FinalizeStep::Unexpected(self),
        }
    }

    fn failed(self, error: BlockBuildingHelperError) -> (step: FinalizeStep)
        requires
            self.wf(),
        ensures
            step.is(crate::building::finalization::failed(self@, error)),
    {
        FinalizeStep::Finished(self.helper, FinalizeOutcome::Failed { error, cancel_slot: false })
    }

    fn provider_failed(self, error: ProviderError) -> (step: FinalizeStep)
        requires
            self.wf(),
        ensures
            step.is(crate::building::finalization::provider_failed(self@, error)),
    {
        self.failed(BlockBuildingHelperError::ProviderError(error))
    }

    /// Records the coinbase reward and goes to the first constraint.
    fn begin_execution(self) -> (step: FinalizeStep)
        requires
            self.wf(),
            self.verdicts@.len() == 0,
        ensures
            step.is(begin_execution(self@)),
    {
        let mut f = self;
        f.helper.built_block_trace.coinbase_reward = f.helper.partial_block.coinbase_profit;
        f.executed = Ghost(f.helper.partial_block@.hashes());
        f.next_constraint(0)
    }

    /// Goes to the constraint at the given index; after the last one, to the payout.
    fn next_constraint(self, index: usize) -> (step: FinalizeStep)
        requires
            self.helper.wf(),
            index == self.verdicts@.len(),
            index <= self.helper.building_ctx.constraints@.len(),
        ensures
            step.is(next_constraint(self@, index)),
    {
        let mut f = self;
        if index < f.helper.building_ctx.constraints.len() {
            f.stage = Stage::Decoding(index);
            let payload = copy_bytes(f.helper.building_ctx.constraints[index].payload.as_slice());
            FinalizeStep::Perform(f, FinalizeAction::DecodeConstraint { index, payload })
        } else {
            f.stage = Stage::Paying;
            let action = FinalizeAction::InsertPayout {
                payout_tx_gas: f.helper.payout_tx_gas,
                payout_tx_value: f.request.payout_tx_value,
                adjust: f.request.adjust,
            };
            FinalizeStep::Perform(f, action)
        }
    }

    fn settled(self, index: usize, verdict: ConstraintVerdict) -> (step: FinalizeStep)
        requires
            self.wf(),
            index == self.verdicts@.len(),
            index < self.helper.building_ctx.constraints.len(),
        ensures
            step.is(settled(self@, index, verdict)),
    {
        let mut f = self;
        f.verdicts.push(verdict);
        f.next_constraint(index + 1)
    }

    /// Records what the block is worth, and proves that it satisfies its constraints.
    fn record_value(self, true_value: U256, fee_recipient_balance_after: U256) -> (step:
        FinalizeStep)
        requires
            self.wf(),
            self.verdicts@.len() == self.helper.building_ctx.constraints@.len(),
        ensures
            step.is(value_recorded(self@, true_value@, fee_recipient_balance_after@)),
    {
        let mut f = self;
        let fee_recipient_balance_diff = match checked_sub(
            fee_recipient_balance_after,
            f.helper.fee_recipient_balance_start,
        ) {
            Some(diff) => diff,
            None => U256::zero(),
        };
        f.helper.built_block_trace.bid_value = larger(
            f.request.payout_tx_value,
            fee_recipient_balance_diff,
        );
        f.helper.built_block_trace.subsidy = f.request.subsidy;
        f.helper.built_block_trace.true_bid_value = true_value;
        f.helper.built_block_trace.mev_blocker_price = f.helper.building_ctx.mev_blocker_price;
        let constraint_tx_hashes = f.constraint_tx_hashes();
        match f.helper.prove_constraints(&constraint_tx_hashes) {
            Ok(_) => {},
            Err(e) => {
                return f.failed(e);
            },
        }
        if f.request.adjust {
            f.stage = Stage::Sealing;
            FinalizeStep::Perform(f, FinalizeAction::Seal { adjust: true })
        } else {
            f.stage = Stage::Verifying;
            FinalizeStep::Perform(f, FinalizeAction::VerifyBundles)
        }
    }

    /// The hashes of the transactions of the constraints.
    fn constraint_tx_hashes(&self) -> (hashes: Vec<B256>)
        ensures
            hashes@ == constraint_hashes(self.verdicts@),
    {
        let mut hashes: Vec<B256> = Vec::new();
        let mut i: usize = 0;
        while i < self.verdicts.len()
            invariant
                i <= self.verdicts@.len(),
                hashes@.len() == i,
                forall|k: int| 0 <= k < i ==> hashes@[k] == constraint_hashes(self.verdicts@)[k],
            decreases self.verdicts@.len() - i,
        {
            hashes.push(self.verdicts[i].hash());
            i += 1;
        }
        assert(hashes@ =~= constraint_hashes(self.verdicts@));
        hashes
    }

    /// Records the sealed block, which can be adjusted from now on.
    fn finish(self, report: SealReport) -> (step: FinalizeStep)
        requires
            self.wf(),
        ensures
            step.is(crate::building::finalization::sealed(self@, report)),
            proofs_lead_to_transactions(self@.helper) ==> (step matches FinalizeStep::Finished(
                helper,
                _,
            ) && proofs_lead_to_transactions(helper@)),
    {
        let metrics = BlockMetrics {
            txs: report.finalized_block.sealed_block.transactions.len(),
            blobs: report.finalized_block.txs_blob_sidecars.len(),
            gas_used: report.finalized_block.sealed_block.gas_used,
            sim_gas_used: report.sim_gas_used,
        };
        let mut helper = self.helper;
        helper.built_block_trace.orders_sealed_at = report.sealed_at;
        if self.request.adjust {
            helper.built_block_trace.finalize_adjust_time = report.elapsed;
        } else {
            helper.built_block_trace.root_hash_time = report.finalized_block.root_hash_time;
            helper.built_block_trace.finalize_time = report.elapsed;
        }
        helper.built_block_trace.seen_competition_bid = self.request.seen_competition_bid;
        helper.adjustable = true;
        let block = Block {
            builder_name: helper.builder_name.clone(),
            trace: helper.built_block_trace.duplicate(),
            sealed_block: report.finalized_block.sealed_block,
            txs_blobs_sidecars: report.finalized_block.txs_blob_sidecars,
            execution_requests: report.finalized_block.execution_requests,
            bid_adjustments: report.finalized_block.bid_adjustments,
        };
        FinalizeStep::Finished(
            helper,
            FinalizeOutcome::Finalized(FinalizeBlockResult { block }, metrics),
        )
    }
}

/// What a step hands out, by what the block holds and what the answer brought.
proof fn lemma_step_in_words(step: FinalizeStep, f: FinalizationView, event: FinalizeEvent)
    requires
        step.is(finalize_step(f, event)),
    ensures
        step matches FinalizeStep::Perform(
            _,
            FinalizeAction::DecodeConstraint { index, payload },
        ) ==> index < f.helper.context.constraints.len() && payload@
            == f.helper.context.constraints[index as int],
        step matches FinalizeStep::Perform(
            _,
            FinalizeAction::ExecuteConstraint { index: _, raw_tx },
        ) ==> (event matches FinalizeEvent::Decoded(tx) && raw_tx@ == tx.rlp@),
        step matches FinalizeStep::Perform(
            _,
            FinalizeAction::InsertPayout { payout_tx_gas, payout_tx_value, adjust },
        ) ==> {
            &&& payout_tx_gas == f.helper.payout_tx_gas
            &&& payout_tx_value@ == f.request.payout_tx_value@
            &&& adjust == f.request.adjust
        },
        step matches FinalizeStep::Finished(
            helper,
            FinalizeOutcome::Finalized(result, metrics),
        ) ==> (event matches FinalizeEvent::Sealed(report) && {
            &&& result.block.sealed_block == report.finalized_block.sealed_block
            &&& result.block.txs_blobs_sidecars == report.finalized_block.txs_blob_sidecars
            &&& result.block.execution_requests == report.finalized_block.execution_requests
            &&& result.block.bid_adjustments == report.finalized_block.bid_adjustments
            &&& result.block.builder_name@ == f.helper.builder_name
            &&& result.block.trace@ == helper@.trace
            &&& metrics.txs == report.finalized_block.sealed_block.transactions@.len()
            &&& metrics.blobs == report.finalized_block.txs_blob_sidecars@.len()
            &&& metrics.gas_used == report.finalized_block.sealed_block.gas_used
            &&& metrics.sim_gas_used == report.sim_gas_used
        }),
{
    if event is Sealed {
        let block = event->Sealed_0.finalized_block;
        assert(block.sealed_block.transactions.len() == block.sealed_block.transactions@.len());
        assert(block.txs_blob_sidecars.len() == block.txs_blob_sidecars@.len());
    }
}

impl BlockBuildingHelperFromProvider {
    /// The transactions of the block have RLP encodings.
    pub closed spec fn wf(&self) -> bool {
        self.partial_block.wf()
    }

    /// What the block holds so far.
    pub fn partial_block(&self) -> (block: &PartialBlock)
        ensures
            block@ == self@.partial_block,
    {
        &self.partial_block
    }

    /// A block without transactions, with space reserved for the payout, whose record begins now.
    pub(crate) fn assemble(
        built_block_id: BuiltBlockId,
        fee_recipient_balance_start: U256,
        payout_tx_space: BlockSpace,
        builder_name: String,
        building_ctx: BlockBuildingContext,
        available_orders_statistics: OrderStatistics,
        max_order_execution_duration_warning: Option<Nanos>,
    ) -> (helper: Self)
        ensures
            helper.wf(),
            helper@ == (HelperView {
                fee_recipient_balance_start: fee_recipient_balance_start@,
                partial_block: PartialBlockView {
                    coinbase_profit: 0,
                    space_used: no_space(),
                    space_reserved: payout_tx_space,
                    transactions: Seq::empty(),
                },
                payout_tx_gas: payout_tx_space.gas,
                builder_name: builder_name@,
                context: building_ctx@,
                trace: new_trace(
                    built_block_id,
                    available_orders_statistics.orders@,
                    helper@.trace.orders_closed_at,
                ),
                adjustable: false,
                max_order_execution_duration_warning,
            }),
    {
        let now = now_utc();
        let mut partial_block = PartialBlock::new();
        partial_block.reserve_block_space(payout_tx_space);
        BlockBuildingHelperFromProvider {
            fee_recipient_balance_start,
            partial_block,
            payout_tx_gas: payout_tx_space.gas,
            builder_name,
            building_ctx,
            built_block_trace: BuiltBlockTrace::new(
                built_block_id,
                available_orders_statistics,
                now,
            ),
            adjustable: false,
            max_order_execution_duration_warning,
        }
    }

    /// What is reported of an order whose execution took too long.
    fn trace_slow_order_execution<E, C>(
        &self,
        order: &SimulatedOrder,
        sim_time: Nanos,
        outcome: &Result<Result<OrderExecution, E>, C>,
    ) -> (slow: SlowOrder)
        ensures
            is_slow_report(slow, self@, *order, sim_time, *outcome),
    {
        let (execution, included) = match outcome {
            Ok(Ok(execution)) => (SlowExecution::Included, Some(execution.result)),
            Ok(Err(_)) => (SlowExecution::Failed, None),
            Err(_) => (SlowExecution::Critical, None),
        };
        SlowOrder {
            execution,
            sim_time,
            builder_name: self.builder_name.clone(),
            id: order.id,
            tob_sim_value: order.sim_value,
            txs: copy_all(&order.txs),
            included,
        }
    }

    /// Adds a constraint transaction that was executed to the end of the block. Says whether the
    /// coinbase has not lost by the block.
    fn append_constraint_transaction(&mut self, info: TransactionExecutionInfo) -> (gains: bool)
        requires
            old(self).wf(),
            info.tx.wf(),
        ensures
            final(self).wf(),
            forall|f: FinalizationView|
                f.helper == old(self)@ ==> #[trigger] with_appended(f, info) == (FinalizationView {
                    helper: final(self)@,
                    ..f
                }),
            final(self).building_ctx == old(self).building_ctx,
            gains == (old(self)@.partial_block.coinbase_profit + info.coinbase_profit@ >= 0),
    {
        let tx_hash = info.tx.hash;
        let (profit, gains) = match with_delta(
            self.partial_block.coinbase_profit,
            info.coinbase_profit,
        ) {
            Some(profit) => (profit, true),
            None => (U256::zero(), false),
        };
        self.partial_block.coinbase_profit = profit;
        self.partial_block.space_used = self.partial_block.space_used.plus(info.space_used);
        let ghost infos = self.partial_block.executed_tx_infos@;
        self.partial_block.executed_tx_infos.push(info);
        self.built_block_trace.appended_constraint_txs.push(tx_hash);
        assert(executed_transactions(infos.push(info)) =~= executed_transactions(infos).push(
            info@,
        ));
        gains
    }

    /// Generate MPT proofs of inclusion for all constraint transactions
    /// Add the proofs to the built block trace
    fn prove_constraints(&mut self, constraint_tx_hashes: &Vec<B256>) -> (result: Result<
        (),
        BlockBuildingHelperError,
    >)
        requires
            old(self).wf(),
            constraint_tx_hashes@.len() == old(self).building_ctx.constraints@.len(),
        ensures
            final(self).wf(),
            final(self).building_ctx == old(self).building_ctx,
            result is Ok ==> proofs_lead_to_transactions(final(self)@),
            ({
                let hashes = old(self)@.partial_block.hashes();
                let values = old(self)@.partial_block.values();
                let wanted = hash_values(constraint_tx_hashes@);
                if all_in_block(hashes, wanted) {
                    &&& result is Ok
                    &&& final(self)@ == (HelperView {
                        trace: TraceView {
                            constraint_proofs: inclusion_proofs(
                                hashes,
                                values,
                                wanted,
                                old(self)@.context.block,
                            ),
                            ..old(self)@.trace
                        },
                        ..old(self)@
                    })
                } else {
                    &&& result == Err::<(), BlockBuildingHelperError>(
                        BlockBuildingHelperError::ProviderError(
                            ProviderError::Unproved(
                                ConstraintProofError::TxHashNotFound(
                                    first_missing(hashes, constraint_tx_hashes@),
                                ),
                            ),
                        ),
                    )
                    &&& final(self)@ == old(self)@
                }
            }),
    {
        // Get all executed transactions in the block
        let executed_txs = self.partial_block.transactions();
        proof {
            assert(transaction_hashes(executed_txs@) =~= self@.partial_block.hashes());
            assert(transaction_values(executed_txs@) =~= self@.partial_block.values());
        }
        match prove_transaction_inclusion(
            executed_txs.as_slice(),
            constraint_tx_hashes.as_slice(),
            self.building_ctx.block,
        ) {
            Ok(constraint_proofs) => {
                // Save the proof in the built block trace
                self.built_block_trace.constraint_proofs = constraint_proofs;
                Ok(())
            },
            Err(e) => Err(
                BlockBuildingHelperError::ProviderError(ProviderError::Unproved(e)),
            ),
        }
    }

    fn finalize_block_impl(self, request: FinalizeRequest) -> (step: FinalizeStep)
        requires
            self.wf(),
        ensures
            step.is(start_step(self@, request)),
    {
        if request.adjust != self.adjustable {
            return FinalizeStep::Finished(
                self,
                FinalizeOutcome::Failed {
                    error: BlockBuildingHelperError::BlockFinalizedIncorrectly,
                    cancel_slot: false,
                },
            );
        }
        let mut helper = self;
        helper.adjustable = false;
        let f = Finalization {
            helper,
            request,
            stage: Stage::Reverting,
            executed: Ghost(Seq::empty()),
            verdicts: Vec::new(),
        };
        if request.adjust {
            FinalizeStep::Perform(f, FinalizeAction::RevertToPrefinalized)
        } else {
            f.begin_execution()
        }
    }
}

impl BlockBuildingHelper for BlockBuildingHelperFromProvider {
    open spec fn model(&self) -> HelperView {
        self@
    }

    open spec fn valid(&self) -> bool {
        self.wf()
    }

    fn box_clone(&self) -> (copy: Box<Self>) {
        Box::new(
            BlockBuildingHelperFromProvider {
                fee_recipient_balance_start: self.fee_recipient_balance_start,
                partial_block: self.partial_block.duplicate(),
                payout_tx_gas: self.payout_tx_gas,
                builder_name: self.builder_name.clone(),
                building_ctx: self.building_ctx.duplicate(),
                built_block_trace: self.built_block_trace.duplicate(),
                adjustable: self.adjustable,
                max_order_execution_duration_warning: self.max_order_execution_duration_warning,
            },
        )
    }

    fn commit_order<E, C>(
        &mut self,
        order: &SimulatedOrder,
        sim_time: Nanos,
        outcome: Result<Result<OrderExecution, E>, C>,
    ) -> (committed: (Result<Result<ExecutionResult, E>, C>, CommitReport)) {
        let slow = match self.max_order_execution_duration_warning {
            Some(max) => if sim_time > max {
                Some(self.trace_slow_order_execution(order, sim_time, &outcome))
            } else {
                None
            },
            None => None,
        };
        self.built_block_trace.considered_orders_statistics.orders.push(order.id);
        let (result, sim_ok) = match outcome {
            Ok(Ok(execution)) => {
                self.partial_block = execution.partial_block;
                self.built_block_trace.included_orders.push(execution.result);
                (Ok(Ok(execution.result)), true)
            },
            Ok(Err(err)) => {
                self.built_block_trace.failed_orders_statistics.orders.push(order.id);
                (Ok(Err(err)), false)
            },
            Err(e) => (Err(e), false),
        };
        (result, CommitReport { sim_time, sim_ok, slow })
    }

    fn set_trace_fill_time(&mut self, time: Nanos) {
        self.built_block_trace.fill_time = time;
    }

    fn set_trace_orders_closed_at(&mut self, orders_closed_at: UtcTime) {
        self.built_block_trace.orders_closed_at = orders_closed_at;
    }

    fn set_filtered_build_statistics(
        &mut self,
        considered_orders_statistics: OrderStatistics,
        failed_orders_statistics: OrderStatistics,
    ) {
        self.built_block_trace.considered_orders_statistics = considered_orders_statistics;
        self.built_block_trace.failed_orders_statistics = failed_orders_statistics;
    }

    fn payout_tx_gas(&self) -> (gas: u64) {
        self.payout_tx_gas
    }

    fn finalize_block(
        self,
        payout_tx_value: U256,
        subsidy: I256,
        seen_competition_bid: Option<U256>,
    ) -> (step: FinalizeStep) {
        self.finalize_block_impl(
            FinalizeRequest { payout_tx_value, subsidy, seen_competition_bid, adjust: false },
        )
    }

    fn adjust_finalized_block(
        self,
        payout_tx_value: U256,
        subsidy: I256,
        seen_competition_bid: Option<U256>,
    ) -> (step: FinalizeStep) {
        self.finalize_block_impl(
            FinalizeRequest { payout_tx_value, subsidy, seen_competition_bid, adjust: true },
        )
    }

    fn built_block_trace(&self) -> (trace: &BuiltBlockTrace) {
        &self.built_block_trace
    }

    fn building_context(&self) -> (context: &BlockBuildingContext) {
        &self.building_ctx
    }

    fn builder_name(&self) -> (name: &str) {
        self.builder_name.as_str()
    }
}

/// Wraps a BlockBuildingHelper with a valid true_block_value which makes it ready to bid.
pub struct BiddableUnfinishedBlock<B: BlockBuildingHelper> {
    pub block: Box<B>,
    pub true_block_value: U256,
    pub chosen_as_best_at: UtcTime,
}

impl<B: BlockBuildingHelper> BiddableUnfinishedBlock<B> {
    /// A block is ready to bid where its true value is known: the maximum profit that can reach
    /// the final fee recipient. The main reason for it not to be is that the profit is so low
    /// that it does not pay for the payout.
    pub fn new(block: Box<B>, computed: Result<U256, InsertPayoutTxErr>) -> (result: Result<
        Self,
        BlockBuildingHelperError,
    >)
        ensures
            match computed {
                Ok(value) => {
                    &&& result matches Ok(biddable)
                    &&& biddable.block == block
                    &&& biddable.true_block_value == value
                },
                Err(e) => result == Err::<Self, BlockBuildingHelperError>(
                    BlockBuildingHelperError::InsertPayoutTxErr(e),
                ),
            },
    {
        match block.true_block_value(computed) {
            Ok(true_block_value) => Ok(
                BiddableUnfinishedBlock { block, true_block_value, chosen_as_best_at: now_utc() },
            ),
            Err(e) => Err(e),
        }
    }

    /// A copy of the block.
    pub fn duplicate(&self) -> (copy: Self)
        requires
            self.block.valid(),
        ensures
            copy.block.valid(),
            copy.block.model() == self.block.model(),
            copy.true_block_value == self.true_block_value,
            copy.chosen_as_best_at == self.chosen_as_best_at,
    {
        BiddableUnfinishedBlock {
            block: self.block.box_clone(),
            true_block_value: self.true_block_value,
            chosen_as_best_at: self.chosen_as_best_at,
        }
    }

    pub fn id(&self) -> (id: BuiltBlockId)
        ensures
            id == self.block.model().trace.build_block_id,
    {
        self.block.id()
    }

    pub fn block(&self) -> (block: &B)
        ensures
            *block == *self.block,
    {
        &*self.block
    }

    pub fn into_building_helper(self) -> (block: Box<B>)
        ensures
            block == self.block,
    {
        self.block
    }
}

/// A step that is as expected holds the expected block, asks for the expected action, and ends with
/// the expected outcome: the error as it is, or the finished block with its record and all that was
/// sealed.
pub proof fn step_is_what_is_expected(step: FinalizeStep, expected: StepView)
    requires
        step.is(expected),
    ensures
        match expected {
            StepView::Perform(f, action) => {
                &&& step matches FinalizeStep::Perform(g, asked)
                &&& g@ == f
                &&& asked@ == action
            },
            StepView::Unexpected(f) => step matches FinalizeStep::Unexpected(g) && g@ == f,
            StepView::Finished(h, OutcomeView::Failed { error, cancel_slot }) => {
                &&& step matches FinalizeStep::Finished(
                    helper,
                    FinalizeOutcome::Failed { error: told, cancel_slot: cancels },
                )
                &&& helper@ == h
                &&& told == error
                &&& cancels == cancel_slot
            },
            StepView::Finished(
                h,
                OutcomeView::Finalized { builder_name, trace, finalized_block, metrics },
            ) => {
                &&& step matches FinalizeStep::Finished(
                    helper,
                    FinalizeOutcome::Finalized(result, told),
                )
                &&& helper@ == h
                &&& told == metrics
                &&& result.block.builder_name@ == builder_name
                &&& result.block.trace@ == trace
                &&& result.block.sealed_block == finalized_block.sealed_block
                &&& result.block.txs_blobs_sidecars == finalized_block.txs_blob_sidecars
                &&& result.block.execution_requests == finalized_block.execution_requests
                &&& result.block.bid_adjustments == finalized_block.bid_adjustments
            },
        },
{
}

} // verus!
