//! What each answer means for a finalization, told by what the answer brings and what the block
//! held.

use crate::block_output::constraint_prover::{all_in_block, first_missing_is_first};
use crate::building::block_building_helper::HelperView;
use crate::building::constraint_proofs::{hash_values, ConstraintProofError};
use crate::building::finalization::{
    constraint_hashes, finalize_step, start_step, ActionView, ConstraintVerdict,
    FinalizationView, FinalizeEvent, FinalizeRequest, OutcomeView, SealReport, Stage, StepView,
};
use crate::building::helper_error::{
    BlockBuildingHelperError, FinalizeError, InsertPayoutTxErr, ProviderError,
};
use crate::building::partial_block::{PartialBlock, TransactionExecutionInfo};
use crate::building::transaction::TransactionSigned;
use crate::primitives::bytes::B256;
use crate::primitives::numbers::{modulus, u256_range, U256};
use vstd::prelude::*;

verus! {

/// Whether the action asks for the constraint at `index`, with its own payload, or, where there is
/// none at that index, for the payout that was requested.
pub open spec fn goes_on_at(f: FinalizationView, action: ActionView, index: int) -> bool {
    if index < f.helper.context.constraints.len() {
        &&& action matches ActionView::DecodeConstraint { index: asked, payload }
        &&& asked == index
        &&& payload == f.helper.context.constraints[index]
        &&& f.stage matches Stage::Decoding(at)
        &&& at == index
    } else {
        &&& action matches ActionView::InsertPayout { payout_tx_gas, payout_tx_value, adjust }
        &&& payout_tx_gas == f.helper.payout_tx_gas
        &&& payout_tx_value == f.request.payout_tx_value@
        &&& adjust == f.request.adjust
        &&& f.stage is Paying
    }
}

/// Whether a block holds a transaction with the given hash.
pub open spec fn holds(h: HelperView, hash: B256) -> bool {
    exists|i: int|
        0 <= i < h.partial_block.transactions.len() && (
        #[trigger] h.partial_block.transactions[i]).hash == hash@
}

/// A finalization that begins takes what the coinbase gained so far as its reward and goes to the
/// first constraint; an adjustment has the earlier finalization undone first. Neither touches the
/// transactions, and until it ends the block cannot be adjusted.
pub proof fn finalization_begins(helper: HelperView, request: FinalizeRequest)
    requires
        request.adjust == helper.adjustable,
    ensures
        start_step(helper, request) matches StepView::Perform(f, action) && {
            &&& f.request == request
            &&& f.verdicts.len() == 0
            &&& !f.helper.adjustable
            &&& f.helper.partial_block == helper.partial_block
            &&& f.helper.context == helper.context
            &&& f.helper.payout_tx_gas == helper.payout_tx_gas
            &&& f.helper.fee_recipient_balance_start == helper.fee_recipient_balance_start
            &&& if request.adjust {
                &&& action is RevertToPrefinalized
                &&& f.stage is Reverting
                &&& f.helper.trace == helper.trace
            } else {
                &&& f.helper.trace.coinbase_reward == helper.partial_block.coinbase_profit
                &&& goes_on_at(f, action, 0)
            }
        },
{
}

/// Undoing the earlier finalization gives the block back as it was before; what the coinbase had
/// gained then is the reward.
pub proof fn reverted_block_is_taken(f: FinalizationView, block: PartialBlock)
    requires
        f.stage is Reverting,
    ensures
        finalize_step(f, FinalizeEvent::Reverted(block)) matches StepView::Perform(g, action) && {
            &&& g.helper.partial_block == block@
            &&& g.helper.trace.coinbase_reward == block@.coinbase_profit
            &&& g.helper.context == f.helper.context
            &&& g.request == f.request
            &&& g.verdicts == f.verdicts
            &&& goes_on_at(g, action, 0)
        },
{
}

/// A constraint whose transaction the block holds changes nothing in it; one whose transaction it
/// misses has that transaction executed, by its encoding.
pub proof fn decoded_constraint_is_executed_or_there(
    f: FinalizationView,
    index: usize,
    tx: TransactionSigned,
)
    requires
        f.stage == Stage::Decoding(index),
        index < f.helper.context.constraints.len() <= usize::MAX,
    ensures
        finalize_step(f, FinalizeEvent::Decoded(tx)) matches StepView::Perform(g, action) && {
            &&& g.helper == f.helper
            &&& g.request == f.request
            &&& if holds(f.helper, tx.hash) {
                &&& g.verdicts == f.verdicts.push(ConstraintVerdict::AlreadyIncluded(tx.hash))
                &&& goes_on_at(g, action, index + 1)
            } else {
                &&& g.verdicts == f.verdicts
                &&& g.stage == Stage::Executing(index, tx.hash)
                &&& action matches ActionView::ExecuteConstraint { index: at, raw_tx }
                &&& at == index
                &&& raw_tx == tx.rlp@
            }
        },
{
    let txs = f.helper.partial_block.transactions;
    let hashes = f.helper.partial_block.hashes();
    if holds(f.helper, tx.hash) {
        let i = choose|i: int| 0 <= i < txs.len() && (#[trigger] txs[i]).hash == tx.hash@;
        assert(hashes[i] == tx.hash@);
    } else if hashes.contains(tx.hash@) {
        let i = choose|i: int| 0 <= i < hashes.len() && hashes[i] == tx.hash@;
        assert(txs[i].hash == tx.hash@);
    }
}

/// A constraint transaction that was executed stands at the end of the block, and is tracked. The
/// profit changes by what the coinbase gained or lost, and the room used by what the transaction
/// takes; the rest of the block and of its record stays. Where the coinbase has lost by the block,
/// the finalization ends.
pub proof fn committed_constraint_is_appended(
    f: FinalizationView,
    index: usize,
    info: TransactionExecutionInfo,
)
    requires
        f.stage == Stage::Executing(index, info.tx.hash),
        index < f.helper.context.constraints.len() <= usize::MAX,
    ensures
        ({
            let before = f.helper.partial_block;
            let sum = before.coinbase_profit + info.coinbase_profit@;
            let step = finalize_step(f, FinalizeEvent::Committed(info));
            &&& sum < 0 ==> (step matches StepView::Finished(
                _,
                OutcomeView::Failed { error, cancel_slot },
            ) && !cancel_slot && error == BlockBuildingHelperError::InsertPayoutTxErr(
                InsertPayoutTxErr::ProfitTooLow,
            ))
            &&& sum >= 0 ==> (step matches StepView::Perform(g, action) && {
                let after = g.helper.partial_block;
                &&& sum < modulus() ==> after.coinbase_profit == sum
                &&& after.transactions.len() == before.transactions.len() + 1
                &&& forall|i: int|
                    0 <= i < before.transactions.len() ==> after.transactions[i]
                        == before.transactions[i]
                &&& after.transactions.last().hash == info.tx.hash@
                &&& after.transactions.last().rlp == info.tx.rlp@
                &&& after.transactions.last().coinbase_profit == info.coinbase_profit@
                &&& after.transactions.last().space_used == info.space_used
                &&& before.space_used.gas + info.space_used.gas <= u64::MAX
                    ==> after.space_used.gas == before.space_used.gas + info.space_used.gas
                &&& before.space_used.rlp_length + info.space_used.rlp_length <= usize::MAX
                    ==> after.space_used.rlp_length == before.space_used.rlp_length
                    + info.space_used.rlp_length
                &&& before.space_used.blob_gas + info.space_used.blob_gas <= u64::MAX
                    ==> after.space_used.blob_gas == before.space_used.blob_gas
                    + info.space_used.blob_gas
                &&& after.space_reserved == before.space_reserved
                &&& g.helper.trace.appended_constraint_txs
                    == f.helper.trace.appended_constraint_txs.push(info.tx.hash)
                &&& g.helper.trace.coinbase_reward == f.helper.trace.coinbase_reward
                &&& g.helper.trace.constraint_proofs == f.helper.trace.constraint_proofs
                &&& g.helper.trace.included_orders == f.helper.trace.included_orders
                &&& g.helper.context == f.helper.context
                &&& g.request == f.request
                &&& g.verdicts == f.verdicts.push(ConstraintVerdict::Appended(info.tx.hash))
                &&& goes_on_at(g, action, index + 1)
            })
        }),
{
    let sum = f.helper.partial_block.coinbase_profit + info.coinbase_profit@;
    if 0 <= sum < modulus() {
        assert(sum % modulus() == sum) by (nonlinear_arith)
            requires
                0 <= sum < modulus(),
        ;
    }
}

/// After the payout the block is the one with the payout in it, and its worth is asked for at the
/// price of the gas that was reserved; then the balance of the fee recipient is read.
pub proof fn payout_is_followed_by_valuing(f: FinalizationView, block: PartialBlock, value: U256)
    ensures
        f.stage is Paying ==> (finalize_step(
            f,
            FinalizeEvent::PayoutInserted(block),
        ) matches StepView::Perform(g, action) && {
            &&& g.helper.partial_block == block@
            &&& g.helper.trace == f.helper.trace
            &&& g.helper.context == f.helper.context
            &&& g.request == f.request
            &&& g.verdicts == f.verdicts
            &&& g.stage is Valuing
            &&& action matches ActionView::ValueBlock { payout_tx_gas }
            &&& payout_tx_gas == f.helper.payout_tx_gas
        }),
        f.stage is Valuing ==> (finalize_step(
            f,
            FinalizeEvent::BlockValued(value),
        ) matches StepView::Perform(g, action) && {
            &&& g.helper == f.helper
            &&& g.request == f.request
            &&& g.verdicts == f.verdicts
            &&& g.stage == Stage::Balancing(value)
            &&& action matches ActionView::ReadBalance { account }
            &&& account == f.helper.context.suggested_fee_recipient
        }),
{
}

/// The bid is the larger of the payout that was asked for and what the fee recipient's balance
/// gained since the block was set up: at least each of the two, and one of them. It does not depend
/// on what the block could have paid, which is recorded beside it. Bundles are checked next, except
/// in an adjustment.
pub proof fn recorded_bid_is_what_the_proposer_gets(
    f: FinalizationView,
    true_value: U256,
    balance: U256,
)
    requires
        f.stage == Stage::Balancing(true_value),
    ensures
        ({
            let payout = f.request.payout_tx_value@;
            let gained = balance@ - f.helper.fee_recipient_balance_start;
            match finalize_step(f, FinalizeEvent::Balance(balance)) {
                StepView::Perform(g, action) => {
                    &&& g.helper.trace.bid_value >= payout
                    &&& g.helper.trace.bid_value >= gained
                    &&& g.helper.trace.bid_value == payout || g.helper.trace.bid_value == gained
                    &&& g.helper.trace.true_bid_value == true_value@
                    &&& g.helper.trace.subsidy == f.request.subsidy@
                    &&& g.helper.trace.mev_blocker_price == f.helper.context.mev_blocker_price
                    &&& g.helper.trace.coinbase_reward == f.helper.trace.coinbase_reward
                    &&& g.helper.trace.appended_constraint_txs
                        == f.helper.trace.appended_constraint_txs
                    &&& g.helper.trace.included_orders == f.helper.trace.included_orders
                    &&& g.helper.partial_block == f.helper.partial_block
                    &&& g.request == f.request
                    &&& g.verdicts == f.verdicts
                    &&& f.request.adjust ==> g.stage is Sealing && action
                        == (ActionView::Seal { adjust: true })
                    &&& !f.request.adjust ==> g.stage is Verifying && action is VerifyBundles
                },
                StepView::Finished(h, OutcomeView::Failed { error, cancel_slot }) => {
                    &&& !cancel_slot
                    &&& error is ProviderError
                    &&& h.partial_block == f.helper.partial_block
                    &&& h.trace.bid_value >= payout
                    &&& h.trace.bid_value >= gained
                    &&& h.trace.bid_value == payout || h.trace.bid_value == gained
                },
                _ => false,
            }
        }),
{
    u256_range(f.request.payout_tx_value);
}

/// The constraint transactions are all in the block that was proved, and it is a failure where one
/// is not: then the first one that is missing is named.
pub proof fn missing_constraint_transaction_is_named(f: FinalizationView, value: U256, balance: U256)
    requires
        f.stage == Stage::Balancing(value),
    ensures
        match finalize_step(f, FinalizeEvent::Balance(balance)) {
            StepView::Perform(_, _) => forall|i: int|
                0 <= i < f.verdicts.len() ==> holds(f.helper, (#[trigger] f.verdicts[i]).tx_hash()),
            StepView::Finished(_, OutcomeView::Failed { error, .. }) => exists|i: int|
                {
                    &&& 0 <= i < f.verdicts.len()
                    &&& !holds(f.helper, (#[trigger] f.verdicts[i]).tx_hash())
                    &&& forall|j: int|
                        0 <= j < i ==> holds(f.helper, (#[trigger] f.verdicts[j]).tx_hash())
                    &&& error == BlockBuildingHelperError::ProviderError(
                        ProviderError::Unproved(
                            ConstraintProofError::TxHashNotFound(
                                f.verdicts[i].tx_hash(),
                            ),
                        ),
                    )
                },
            _ => false,
        },
{
    let txs = f.helper.partial_block.transactions;
    let hashes = f.helper.partial_block.hashes();
    let named = constraint_hashes(f.verdicts);
    let wanted = hash_values(named);
    assert forall|hash: B256| hashes.contains(hash@) == #[trigger] holds(f.helper, hash) by {
        if hashes.contains(hash@) {
            let i = choose|i: int| 0 <= i < hashes.len() && hashes[i] == hash@;
            assert(txs[i].hash == hash@);
        }
        if holds(f.helper, hash) {
            let i = choose|i: int| 0 <= i < txs.len() && (#[trigger] txs[i]).hash == hash@;
            assert(hashes[i] == hash@);
        }
    }
    if all_in_block(hashes, wanted) {
        assert forall|i: int| 0 <= i < f.verdicts.len() implies holds(
            f.helper,
            (#[trigger] f.verdicts[i]).tx_hash(),
        ) by {
            assert(hashes.contains(wanted[i]));
        }
    } else {
        assert(exists|k: int| 0 <= k < named.len() && !hashes.contains((#[trigger] named[k])@)) by {
            let k = choose|k: int| 0 <= k < wanted.len() && !hashes.contains(#[trigger] wanted[k]);
            assert(!hashes.contains(named[k]@));
        }
        let i = first_missing_is_first(hashes, named);
        assert(!holds(f.helper, f.verdicts[i].tx_hash()));
        assert forall|j: int| 0 <= j < i implies holds(
            f.helper,
            (#[trigger] f.verdicts[j]).tx_hash(),
        ) by {
            assert(hashes.contains(named[j]@));
        }
    }
}

/// A block is sealed once its bundles were found consistent, or at once in an adjustment.
pub proof fn consistent_bundles_are_sealed(f: FinalizationView)
    requires
        f.stage is Verifying,
    ensures
        finalize_step(f, FinalizeEvent::BundlesConsistent) matches StepView::Perform(g, action) && {
            &&& g.helper == f.helper
            &&& g.request == f.request
            &&& g.verdicts == f.verdicts
            &&& g.stage is Sealing
            &&& action == (ActionView::Seal { adjust: f.request.adjust })
        },
{
}

/// Sealing finishes the block: what was sealed is handed on whole, with the record of the block.
/// The record gets the time of sealing, the bid of competitors and the times that were taken, and
/// is otherwise what it was; the transactions stay, and the block can be adjusted.
pub proof fn sealed_block_is_handed_on(f: FinalizationView, report: SealReport)
    requires
        f.stage is Sealing,
        report.finalized_block.sealed_block.transactions@.len() <= usize::MAX,
        report.finalized_block.txs_blob_sidecars@.len() <= usize::MAX,
    ensures
        finalize_step(f, FinalizeEvent::Sealed(report)) matches StepView::Finished(
            h,
            OutcomeView::Finalized { builder_name, trace, finalized_block, metrics },
        ) && {
            let old = f.helper.trace;
            &&& h.adjustable
            &&& h.partial_block == f.helper.partial_block
            &&& h.context == f.helper.context
            &&& h.builder_name == f.helper.builder_name
            &&& h.trace == trace
            &&& builder_name == f.helper.builder_name
            &&& finalized_block == report.finalized_block
            &&& metrics.txs == report.finalized_block.sealed_block.transactions@.len()
            &&& metrics.blobs == report.finalized_block.txs_blob_sidecars@.len()
            &&& metrics.gas_used == report.finalized_block.sealed_block.gas_used
            &&& metrics.sim_gas_used == report.sim_gas_used
            &&& trace.orders_sealed_at == report.sealed_at
            &&& match f.request.seen_competition_bid {
                Some(bid) => trace.seen_competition_bid == Some(bid@),
                None => trace.seen_competition_bid is None,
            }
            &&& f.request.adjust ==> {
                &&& trace.finalize_adjust_time == report.elapsed
                &&& trace.finalize_time == old.finalize_time
                &&& trace.root_hash_time == old.root_hash_time
            }
            &&& !f.request.adjust ==> {
                &&& trace.finalize_time == report.elapsed
                &&& trace.root_hash_time == report.finalized_block.root_hash_time
                &&& trace.finalize_adjust_time == old.finalize_adjust_time
            }
            &&& trace.bid_value == old.bid_value
            &&& trace.true_bid_value == old.true_bid_value
            &&& trace.subsidy == old.subsidy
            &&& trace.coinbase_reward == old.coinbase_reward
            &&& trace.mev_blocker_price == old.mev_blocker_price
            &&& trace.appended_constraint_txs == old.appended_constraint_txs
            &&& trace.constraint_proofs == old.constraint_proofs
            &&& trace.build_block_id == old.build_block_id
            &&& trace.included_orders == old.included_orders
            &&& trace.available_orders == old.available_orders
            &&& trace.considered_orders == old.considered_orders
            &&& trace.failed_orders == old.failed_orders
            &&& trace.orders_closed_at == old.orders_closed_at
            &&& trace.fill_time == old.fill_time
        },
{
}

/// The error that an answer which ends a finalization is reported as, where it is one.
pub open spec fn reported_as(stage: Stage, event: FinalizeEvent) -> Option<
    BlockBuildingHelperError,
> {
    match event {
        FinalizeEvent::PayloadUndecodable(e) if stage is Decoding => Some(
            BlockBuildingHelperError::ProviderError(ProviderError::UndecodablePayload(e)),
        ),
        FinalizeEvent::TransactionUndecodable(e) if stage is Decoding => Some(
            BlockBuildingHelperError::ProviderError(ProviderError::UndecodableTransaction(e)),
        ),
        FinalizeEvent::NotCommitted if stage is Executing => Some(
            BlockBuildingHelperError::ProviderError(
                ProviderError::ConstraintNotIncluded(stage->Executing_1),
            ),
        ),
        FinalizeEvent::RawTransactionUndecodable(e) if stage is Executing => Some(
            BlockBuildingHelperError::ProviderError(ProviderError::UndecodableTransaction(e)),
        ),
        FinalizeEvent::ExecutionFailed(e) if stage is Executing => Some(
            BlockBuildingHelperError::ProviderError(ProviderError::CriticalExecution(e)),
        ),
        FinalizeEvent::PayoutFailed(e) if stage is Paying => Some(
            BlockBuildingHelperError::InsertPayoutTxErr(e),
        ),
        FinalizeEvent::ValueFailed(e) if stage is Valuing => Some(
            BlockBuildingHelperError::InsertPayoutTxErr(e),
        ),
        FinalizeEvent::BalanceFailed(e) if stage is Balancing => Some(
            BlockBuildingHelperError::ProviderError(ProviderError::Access(e)),
        ),
        FinalizeEvent::BundlesInconsistent(e) if stage is Verifying => Some(
            BlockBuildingHelperError::BundleConsistencyCheckFailed(e),
        ),
        FinalizeEvent::SealFailed(e) if stage is Sealing => Some(
            BlockBuildingHelperError::FinalizeError(e),
        ),
        _ => None,
    }
}

/// A failure ends the finalization with the error that tells it, and leaves the block as it was.
/// The slot is cancelled where the head has moved.
pub proof fn failure_ends_the_finalization(f: FinalizationView, event: FinalizeEvent)
    requires
        reported_as(f.stage, event) is Some,
    ensures
        finalize_step(f, event) matches StepView::Finished(
            h,
            OutcomeView::Failed { error, cancel_slot },
        ) && {
            &&& h == f.helper
            &&& error == reported_as(f.stage, event)->0
            &&& cancel_slot <==> (event matches FinalizeEvent::SealFailed(
                FinalizeError::ConsistentDbView(_),
            ))
        },
{
}

/// An answer is taken where it is one to the last action, and only there; any other changes
/// nothing.
pub proof fn only_the_awaited_answer_is_taken(f: FinalizationView, event: FinalizeEvent)
    ensures
        finalize_step(f, event) matches StepView::Unexpected(g) ==> g == f,
        finalize_step(f, event) is Unexpected <==> !(reported_as(f.stage, event) is Some || (
        match event {
            FinalizeEvent::Reverted(_) => f.stage is Reverting,
            FinalizeEvent::Decoded(_) => f.stage is Decoding,
            FinalizeEvent::Committed(info) => f.stage is Executing && f.stage->Executing_1
                == info.tx.hash,
            FinalizeEvent::PayoutInserted(_) => f.stage is Paying,
            FinalizeEvent::BlockValued(_) => f.stage is Valuing,
            FinalizeEvent::Balance(_) => f.stage is Balancing,
            FinalizeEvent::BundlesConsistent => f.stage is Verifying,
            FinalizeEvent::Sealed(_) => f.stage is Sealing,
            _ => false,
        })),
{
}

} // verus!
