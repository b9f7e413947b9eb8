//! How a block is finalized: what is asked of the execution layer, and what is made of each
//! answer.
//!
//! Finalization appends the constraint transactions that the block misses, pays the proposer,
//! records what the block is worth, proves that the constraint transactions are in it, and has it
//! sealed.

use crate::block_output::constraint_prover::{
    all_in_block, first_missing, inclusion_proofs, leads_to,
};
use crate::building::block_building_helper::HelperView;
use crate::building::built_block_trace::{optional_number, BuiltBlockTrace, TraceView};
use crate::building::constraint_proofs::{hash_values, ConstraintProofError};
use crate::building::helper_error::{
    BlockBuildingHelperError, FinalizeError, InsertPayoutTxErr, ProviderError,
};
use crate::building::partial_block::{
    space_sum, PartialBlock, PartialBlockView, TransactionExecutionInfo,
};
use crate::building::transaction::TransactionSigned;
use crate::primitives::bytes::{Address, B256};
use crate::primitives::clock::{Nanos, UtcTime};
use crate::primitives::numbers::{modulus, I256, U256};
use vstd::prelude::*;

verus! {

/// What a block is to be finalized with.
#[derive(Debug, Clone, Copy)]
pub struct FinalizeRequest {
    /// Value to pay to the fee recipient
    pub payout_tx_value: U256,
    /// How much of that is subsidy
    pub subsidy: I256,
    pub seen_competition_bid: Option<U256>,
    /// Whether a block that was finalized before is adjusted
    pub adjust: bool,
}

/// How far finalization has come.
#[derive(Debug, Clone, Copy)]
pub enum Stage {
    /// The earlier finalization is being undone.
    Reverting,
    /// The constraint at this index is being decoded.
    Decoding(usize),
    /// The transaction of the constraint at this index is being executed.
    Executing(usize, B256),
    /// The payout transaction is being inserted.
    Paying,
    /// The true value of the block is being computed.
    Valuing,
    /// The fee recipient's balance is being read; the true value is known.
    Balancing(U256),
    /// The bundles of the block are being checked.
    Verifying,
    /// The block is being sealed.
    Sealing,
}

/// How a constraint was satisfied, with the hash of its transaction.
#[derive(Debug, Clone, Copy)]
pub enum ConstraintVerdict {
    /// The block held the transaction already.
    AlreadyIncluded(B256),
    /// The transaction was appended to the block.
    Appended(B256),
}

impl ConstraintVerdict {
    /// The hash of the constraint's transaction.
    pub open spec fn tx_hash(self) -> B256 {
        match self {
            ConstraintVerdict::AlreadyIncluded(hash) => hash,
            ConstraintVerdict::Appended(hash) => hash,
        }
    }

    /// The hash of the constraint's transaction.
    pub fn hash(&self) -> (hash: B256)
        ensures
            hash == self.tx_hash(),
    {
        match self {
            ConstraintVerdict::AlreadyIncluded(hash) => *hash,
            ConstraintVerdict::Appended(hash) => *hash,
        }
    }
}

/// The hashes of the transactions of constraints, in order.
pub open spec fn constraint_hashes(verdicts: Seq<ConstraintVerdict>) -> Seq<B256> {
    verdicts.map_values(|verdict: ConstraintVerdict| verdict.tx_hash())
}

/// What is to be done next.
#[derive(Debug)]
pub enum FinalizeAction {
    /// Undo the earlier finalization.
    RevertToPrefinalized,
    /// Decode the inclusion payload of a constraint, and the transaction in it.
    DecodeConstraint { index: usize, payload: Vec<u8> },
    /// Execute a constraint transaction, given by its RLP encoding.
    ExecuteConstraint { index: usize, raw_tx: Vec<u8> },
    /// Insert refunds and the payout to the proposer.
    InsertPayout { payout_tx_gas: u64, payout_tx_value: U256, adjust: bool },
    /// Compute the value of the block after the cost of the payout.
    ValueBlock { payout_tx_gas: u64 },
    /// Read the balance of the fee recipient.
    ReadBalance { account: Address },
    /// Check the consistency of the bundles.
    VerifyBundles,
    /// Seal the block.
    Seal { adjust: bool },
}

/// What a `FinalizeAction` asks for.
pub enum ActionView {
    RevertToPrefinalized,
    DecodeConstraint { index: usize, payload: Seq<u8> },
    ExecuteConstraint { index: usize, raw_tx: Seq<u8> },
    InsertPayout { payout_tx_gas: u64, payout_tx_value: int, adjust: bool },
    ValueBlock { payout_tx_gas: u64 },
    ReadBalance { account: Address },
    VerifyBundles,
    Seal { adjust: bool },
}

impl View for FinalizeAction {
    type V = ActionView;

    open spec fn view(&self) -> ActionView {
        match *self {
            FinalizeAction::RevertToPrefinalized => ActionView::RevertToPrefinalized,
            FinalizeAction::DecodeConstraint { index, payload } => ActionView::DecodeConstraint {
                index,
                payload: payload@,
            },
            FinalizeAction::ExecuteConstraint { index, raw_tx } => ActionView::ExecuteConstraint {
                index,
                raw_tx: raw_tx@,
            },
            FinalizeAction::InsertPayout { payout_tx_gas, payout_tx_value, adjust } => {
                ActionView::InsertPayout {
                    payout_tx_gas,
                    payout_tx_value: payout_tx_value@,
                    adjust,
                }
            },
            FinalizeAction::ValueBlock { payout_tx_gas } => ActionView::ValueBlock {
                payout_tx_gas,
            },
            FinalizeAction::ReadBalance { account } => ActionView::ReadBalance { account },
            FinalizeAction::VerifyBundles => ActionView::VerifyBundles,
            FinalizeAction::Seal { adjust } => ActionView::Seal { adjust },
        }
    }
}

/// A block that was sealed.
#[derive(Debug, Clone)]
pub struct SealedBlock {
    pub hash: B256,
    pub gas_used: u64,
    /// Encoded transactions
    pub transactions: Vec<Vec<u8>>,
}

/// What sealing a block gives.
#[derive(Debug, Clone)]
pub struct FinalizeResult {
    pub sealed_block: SealedBlock,
    pub txs_blob_sidecars: Vec<Vec<u8>>,
    pub execution_requests: Vec<Vec<u8>>,
    pub bid_adjustments: Vec<Vec<u8>>,
    /// Time that the root hash took
    pub root_hash_time: Nanos,
}

/// The outcome of sealing, with what was measured.
#[derive(Debug, Clone)]
pub struct SealReport {
    pub finalized_block: FinalizeResult,
    /// Gas that simulations used
    pub sim_gas_used: u64,
    /// Time since finalization began
    pub elapsed: Nanos,
    pub sealed_at: UtcTime,
}

/// The answer to a `FinalizeAction`.
#[derive(Debug)]
pub enum FinalizeEvent {
    /// The earlier finalization was undone; this is the block as it was.
    Reverted(PartialBlock),
    /// The transaction of the constraint
    Decoded(TransactionSigned),
    PayloadUndecodable(String),
    TransactionUndecodable(String),
    /// The constraint transaction was executed; this is what it did.
    Committed(TransactionExecutionInfo),
    /// The constraint transaction cannot be executed in this block.
    NotCommitted,
    /// The encoded constraint transaction could not be read.
    RawTransactionUndecodable(String),
    ExecutionFailed(String),
    /// The payout is inserted; this is the block with it.
    PayoutInserted(PartialBlock),
    PayoutFailed(InsertPayoutTxErr),
    BlockValued(U256),
    ValueFailed(InsertPayoutTxErr),
    Balance(U256),
    BalanceFailed(String),
    BundlesConsistent,
    BundlesInconsistent(String),
    Sealed(SealReport),
    SealFailed(FinalizeError),
}

impl FinalizeEvent {
    /// The transactions that it brings have RLP encodings.
    pub open spec fn wf(&self) -> bool {
        match self {
            FinalizeEvent::Reverted(block) => block.wf(),
            FinalizeEvent::PayoutInserted(block) => block.wf(),
            FinalizeEvent::Committed(info) => info.tx.wf(),
            _ => true,
        }
    }
}

/// A finished block.
#[derive(Debug, Clone)]
pub struct Block {
    pub builder_name: String,
    pub trace: BuiltBlockTrace,
    pub sealed_block: SealedBlock,
    pub txs_blobs_sidecars: Vec<Vec<u8>>,
    pub execution_requests: Vec<Vec<u8>>,
    pub bid_adjustments: Vec<Vec<u8>>,
}

/// What finalizing a block gives.
#[derive(Debug, Clone)]
pub struct FinalizeBlockResult {
    pub block: Block,
}

/// What is reported of a finished block.
#[derive(Debug, Clone, Copy, PartialEq, Eq, Structural)]
pub struct BlockMetrics {
    pub txs: usize,
    pub blobs: usize,
    pub gas_used: u64,
    pub sim_gas_used: u64,
}

/// How finalization ended.
#[derive(Debug)]
pub enum FinalizeOutcome {
    Finalized(FinalizeBlockResult, BlockMetrics),
    /// The slot is to be cancelled where `cancel_slot` holds.
    Failed { error: BlockBuildingHelperError, cancel_slot: bool },
}

/// What a `FinalizeOutcome` says.
pub enum OutcomeView {
    Finalized {
        builder_name: Seq<char>,
        trace: TraceView,
        finalized_block: FinalizeResult,
        metrics: BlockMetrics,
    },
    Failed { error: BlockBuildingHelperError, cancel_slot: bool },
}

/// Whether an outcome says what `expected` does.
pub open spec fn is_outcome(outcome: FinalizeOutcome, expected: OutcomeView) -> bool {
    match (outcome, expected) {
        (
            FinalizeOutcome::Finalized(result, metrics),
            OutcomeView::Finalized { builder_name, trace, finalized_block, metrics: expected },
        ) => {
            &&& result.block.builder_name@ == builder_name
            &&& result.block.trace@ == trace
            &&& result.block.sealed_block == finalized_block.sealed_block
            &&& result.block.txs_blobs_sidecars == finalized_block.txs_blob_sidecars
            &&& result.block.execution_requests == finalized_block.execution_requests
            &&& result.block.bid_adjustments == finalized_block.bid_adjustments
            &&& metrics == expected
        },
        (
            FinalizeOutcome::Failed { error, cancel_slot },
            OutcomeView::Failed { error: expected_error, cancel_slot: expected_cancel },
        ) => error == expected_error && cancel_slot == expected_cancel,
        _ => false,
    }
}

/// A finalization under way.
pub struct FinalizationView {
    pub helper: HelperView,
    pub request: FinalizeRequest,
    pub stage: Stage,
    /// Hashes of the transactions that were in the block before constraints were appended
    pub executed: Seq<Seq<u8>>,
    /// How the constraints so far were satisfied
    pub verdicts: Seq<ConstraintVerdict>,
}

/// Where finalization stands after an answer.
pub enum StepView {
    /// It goes on with this action.
    Perform(FinalizationView, ActionView),
    /// It is over.
    Finished(HelperView, OutcomeView),
    /// The answer does not belong to the last action; nothing has changed.
    Unexpected(FinalizationView),
}

/// The end of a finalization that failed.
pub open spec fn failed(f: FinalizationView, error: BlockBuildingHelperError) -> StepView {
    StepView::Finished(f.helper, OutcomeView::Failed { error, cancel_slot: false })
}

/// The end of a finalization that failed for want of block data.
pub open spec fn provider_failed(f: FinalizationView, error: ProviderError) -> StepView {
    failed(f, BlockBuildingHelperError::ProviderError(error))
}

/// A finalization begins: a block can be adjusted only after it was finalized, and finalized only
/// where that was not done already.
pub open spec fn start_step(helper: HelperView, request: FinalizeRequest) -> StepView {
    let f = FinalizationView {
        helper: HelperView { adjustable: false, ..helper },
        request,
        stage: Stage::Reverting,
        executed: Seq::empty(),
        verdicts: Seq::empty(),
    };
    if request.adjust != helper.adjustable {
        StepView::Finished(
            helper,
            OutcomeView::Failed {
                error: BlockBuildingHelperError::BlockFinalizedIncorrectly,
                cancel_slot: false,
            },
        )
    } else if request.adjust {
        StepView::Perform(f, ActionView::RevertToPrefinalized)
    } else {
        begin_execution(f)
    }
}

/// The reward of the coinbase is recorded, and the constraints are gone through.
pub open spec fn begin_execution(f: FinalizationView) -> StepView {
    let trace = TraceView {
        coinbase_reward: f.helper.partial_block.coinbase_profit,
        ..f.helper.trace
    };
    next_constraint(
        FinalizationView {
            helper: HelperView { trace, ..f.helper },
            executed: f.helper.partial_block.hashes(),
            ..f
        },
        0,
    )
}

/// The constraint at the given index comes next; after the last one, the payout.
pub open spec fn next_constraint(f: FinalizationView, index: usize) -> StepView {
    if index < f.helper.context.constraints.len() {
        StepView::Perform(
            FinalizationView { stage: Stage::Decoding(index), ..f },
            ActionView::DecodeConstraint {
                index,
                payload: f.helper.context.constraints[index as int],
            },
        )
    } else {
        StepView::Perform(
            FinalizationView { stage: Stage::Paying, ..f },
            ActionView::InsertPayout {
                payout_tx_gas: f.helper.payout_tx_gas,
                payout_tx_value: f.request.payout_tx_value@,
                adjust: f.request.adjust,
            },
        )
    }
}

/// The constraint at the given index is satisfied.
pub open spec fn settled(
    f: FinalizationView,
    index: usize,
    verdict: ConstraintVerdict,
) -> StepView {
    next_constraint(
        FinalizationView { verdicts: f.verdicts.push(verdict), ..f },
        (index + 1) as usize,
    )
}

/// What the coinbase gained by a block, with a constraint transaction that was appended to it.
pub open spec fn profit_with(f: FinalizationView, info: TransactionExecutionInfo) -> int {
    f.helper.partial_block.coinbase_profit + info.coinbase_profit@
}

/// A finalization whose block had a constraint transaction appended: what the coinbase gained or
/// lost by it is added to the profit, and the room that it takes to the room that is used. A
/// profit is never below zero.
pub open spec fn with_appended(
    f: FinalizationView,
    info: TransactionExecutionInfo,
) -> FinalizationView {
    let profit = profit_with(f, info);
    let partial_block = PartialBlockView {
        coinbase_profit: if profit >= 0 {
            profit % modulus()
        } else {
            0
        },
        space_used: space_sum(f.helper.partial_block.space_used, info.space_used),
        space_reserved: f.helper.partial_block.space_reserved,
        transactions: f.helper.partial_block.transactions.push(info@),
    };
    let trace = TraceView {
        appended_constraint_txs: f.helper.trace.appended_constraint_txs.push(info.tx.hash),
        ..f.helper.trace
    };
    FinalizationView { helper: HelperView { partial_block, trace, ..f.helper }, ..f }
}

/// What the fee recipient gets: the payout or, where that is more, what its balance gained.
pub open spec fn bid_value(payout: int, balance_start: int, balance_after: int) -> int {
    let gained = if balance_after >= balance_start {
        balance_after - balance_start
    } else {
        0
    };
    if payout >= gained {
        payout
    } else {
        gained
    }
}

/// A constraint transaction was executed. A block by which the coinbase would lose cannot pay the
/// proposer.
pub open spec fn committed(
    f: FinalizationView,
    index: usize,
    info: TransactionExecutionInfo,
) -> StepView {
    if profit_with(f, info) >= 0 {
        settled(with_appended(f, info), index, ConstraintVerdict::Appended(info.tx.hash))
    } else {
        failed(
            with_appended(f, info),
            BlockBuildingHelperError::InsertPayoutTxErr(InsertPayoutTxErr::ProfitTooLow),
        )
    }
}

/// What the block is worth is recorded, and all its constraint transactions are proved to be in
/// it, whether they were appended or there before.
pub open spec fn value_recorded(f: FinalizationView, true_value: int, balance: int) -> StepView {
    let trace = TraceView {
        bid_value: bid_value(
            f.request.payout_tx_value@,
            f.helper.fee_recipient_balance_start,
            balance,
        ),
        subsidy: f.request.subsidy@,
        true_bid_value: true_value,
        mev_blocker_price: f.helper.context.mev_blocker_price,
        ..f.helper.trace
    };
    let valued = FinalizationView { helper: HelperView { trace, ..f.helper }, ..f };
    let hashes = f.helper.partial_block.hashes();
    let values = f.helper.partial_block.values();
    let wanted = hash_values(constraint_hashes(f.verdicts));
    if !all_in_block(hashes, wanted) {
        provider_failed(
            valued,
            ProviderError::Unproved(
                ConstraintProofError::TxHashNotFound(
                    first_missing(hashes, constraint_hashes(f.verdicts)),
                ),
            ),
        )
    } else {
        let proved = TraceView {
            constraint_proofs: inclusion_proofs(hashes, values, wanted, f.helper.context.block),
            ..trace
        };
        let helper = HelperView { trace: proved, ..f.helper };
        if f.request.adjust {
            StepView::Perform(
                FinalizationView { helper, stage: Stage::Sealing, ..f },
                ActionView::Seal { adjust: true },
            )
        } else {
            StepView::Perform(
                FinalizationView { helper, stage: Stage::Verifying, ..f },
                ActionView::VerifyBundles,
            )
        }
    }
}

/// Whether a block's record holds a proof for each constraint, and every one leads from the
/// transactions root to the encoding of the transaction that it is for, at the place of that
/// transaction in the block.
pub open spec fn proofs_lead_to_transactions(h: HelperView) -> bool {
    let proofs = h.trace.constraint_proofs.proofs;
    &&& proofs.len() == h.context.constraints.len()
    &&& forall|i: int|
        0 <= i < proofs.len() ==> {
            let proof = #[trigger] proofs[i];
            let tx = h.partial_block.transactions[proof.tx_index];
            &&& 0 <= proof.tx_index < h.partial_block.transactions.len()
            &&& tx.hash == proof.tx_hash
            &&& leads_to(proof, h.trace.constraint_proofs.transactions_root, tx.rlp)
        }
}

/// The end of a finalization whose block was sealed.
pub open spec fn sealed(f: FinalizationView, report: SealReport) -> StepView {
    let times = if f.request.adjust {
        TraceView { finalize_adjust_time: report.elapsed, ..f.helper.trace }
    } else {
        TraceView {
            root_hash_time: report.finalized_block.root_hash_time,
            finalize_time: report.elapsed,
            ..f.helper.trace
        }
    };
    let trace = TraceView {
        orders_sealed_at: report.sealed_at,
        seen_competition_bid: optional_number(f.request.seen_competition_bid),
        ..times
    };
    StepView::Finished(
        HelperView { trace, adjustable: true, ..f.helper },
        OutcomeView::Finalized {
            builder_name: f.helper.builder_name,
            trace,
            finalized_block: report.finalized_block,
            metrics: metrics_of(report),
        },
    )
}

/// What is reported of a block that was sealed.
pub open spec fn metrics_of(report: SealReport) -> BlockMetrics {
    BlockMetrics {
        txs: report.finalized_block.sealed_block.transactions@.len() as usize,
        blobs: report.finalized_block.txs_blob_sidecars@.len() as usize,
        gas_used: report.finalized_block.sealed_block.gas_used,
        sim_gas_used: report.sim_gas_used,
    }
}

/// Where a finalization stands after an answer.
pub open spec fn finalize_step(f: FinalizationView, event: FinalizeEvent) -> StepView {
    match (f.stage, event) {
        (Stage::Reverting, FinalizeEvent::Reverted(block)) => begin_execution(
            FinalizationView { helper: HelperView { partial_block: block@, ..f.helper }, ..f },
        ),
        (Stage::Decoding(index), FinalizeEvent::Decoded(tx)) => {
            if f.helper.partial_block.hashes().contains(tx.hash@) {
                settled(f, index, ConstraintVerdict::AlreadyIncluded(tx.hash))
            } else {
                StepView::Perform(
                    FinalizationView { stage: Stage::Executing(index, tx.hash), ..f },
                    ActionView::ExecuteConstraint { index, raw_tx: tx.rlp@ },
                )
            }
        },
        (Stage::Decoding(_), FinalizeEvent::PayloadUndecodable(e)) => provider_failed(
            f,
            ProviderError::UndecodablePayload(e),
        ),
        (Stage::Decoding(_), FinalizeEvent::TransactionUndecodable(e)) => provider_failed(
            f,
            ProviderError::UndecodableTransaction(e),
        ),
        (Stage::Executing(index, hash), FinalizeEvent::Committed(info)) => {
            if info.tx.hash == hash {
                committed(f, index, info)
            } else {
                StepView::Unexpected(f)
            }
        },
        (Stage::Executing(_, hash), FinalizeEvent::NotCommitted) => provider_failed(
            f,
            ProviderError::ConstraintNotIncluded(hash),
        ),
        (Stage::Executing(_, _), FinalizeEvent::RawTransactionUndecodable(e)) => provider_failed(
            f,
            ProviderError::UndecodableTransaction(e),
        ),
        (Stage::Executing(_, _), FinalizeEvent::ExecutionFailed(e)) => provider_failed(
            f,
            ProviderError::CriticalExecution(e),
        ),
        (Stage::Paying, FinalizeEvent::PayoutInserted(block)) => StepView::Perform(
            FinalizationView {
                helper: HelperView { partial_block: block@, ..f.helper },
                stage: Stage::Valuing,
                ..f
            },
            ActionView::ValueBlock { payout_tx_gas: f.helper.payout_tx_gas },
        ),
        (Stage::Paying, FinalizeEvent::PayoutFailed(e)) => failed(
            f,
            BlockBuildingHelperError::InsertPayoutTxErr(e),
        ),
        (Stage::Valuing, FinalizeEvent::BlockValued(value)) => StepView::Perform(
            FinalizationView { stage: Stage::Balancing(value), ..f },
            ActionView::ReadBalance { account: f.helper.context.suggested_fee_recipient },
        ),
        (Stage::Valuing, FinalizeEvent::ValueFailed(e)) => failed(
            f,
            BlockBuildingHelperError::InsertPayoutTxErr(e),
        ),
        (Stage::Balancing(value), FinalizeEvent::Balance(balance)) => value_recorded(
            f,
            value@,
            balance@,
        ),
        (Stage::Balancing(_), FinalizeEvent::BalanceFailed(e)) => provider_failed(
            f,
            ProviderError::Access(e),
        ),
        (Stage::Verifying, FinalizeEvent::BundlesConsistent) => StepView::Perform(
            FinalizationView { stage: Stage::Sealing, ..f },
            ActionView::Seal { adjust: f.request.adjust },
        ),
        (Stage::Verifying, FinalizeEvent::BundlesInconsistent(e)) => failed(
            f,
            BlockBuildingHelperError::BundleConsistencyCheckFailed(e),
        ),
        (Stage::Sealing, FinalizeEvent::Sealed(report)) => sealed(f, report),
        (Stage::Sealing, FinalizeEvent::SealFailed(e)) => StepView::Finished(
            f.helper,
            OutcomeView::Failed {
                error: BlockBuildingHelperError::FinalizeError(e),
                cancel_slot: e is ConsistentDbView,
            },
        ),
        _ => StepView::Unexpected(f),
    }
}

/// An action is seen as what it asks for, with everything that it asks for it with.
pub proof fn action_view_tells_the_action(action: FinalizeAction)
    ensures
        match action {
            FinalizeAction::RevertToPrefinalized => action@ is RevertToPrefinalized,
            FinalizeAction::DecodeConstraint { index, payload } => action@
                == (ActionView::DecodeConstraint { index, payload: payload@ }),
            FinalizeAction::ExecuteConstraint { index, raw_tx } => action@
                == (ActionView::ExecuteConstraint { index, raw_tx: raw_tx@ }),
            FinalizeAction::InsertPayout { payout_tx_gas, payout_tx_value, adjust } => action@
                == (ActionView::InsertPayout {
                payout_tx_gas,
                payout_tx_value: payout_tx_value@,
                adjust,
            }),
            FinalizeAction::ValueBlock { payout_tx_gas } => action@ == (ActionView::ValueBlock {
                payout_tx_gas,
            }),
            FinalizeAction::ReadBalance { account } => action@ == (ActionView::ReadBalance {
                account,
            }),
            FinalizeAction::VerifyBundles => action@ is VerifyBundles,
            FinalizeAction::Seal { adjust } => action@ == (ActionView::Seal { adjust }),
        },
{
}

/// Constraints are known by the transactions that satisfy them, in the order of the constraints.
pub proof fn verdicts_name_their_transactions(verdicts: Seq<ConstraintVerdict>, i: int)
    ensures
        constraint_hashes(verdicts).len() == verdicts.len(),
        0 <= i < verdicts.len() ==> match verdicts[i] {
            ConstraintVerdict::AlreadyIncluded(hash) => constraint_hashes(verdicts)[i] == hash,
            ConstraintVerdict::Appended(hash) => constraint_hashes(verdicts)[i] == hash,
        },
{
}

} // verus!
