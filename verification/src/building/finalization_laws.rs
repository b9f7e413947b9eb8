//! What holds of every finalization, whatever the answers to its actions are.

use crate::block_output::constraint_prover::{all_in_block, inclusion_proofs};
use crate::building::block_building_helper::HelperView;
use crate::building::built_block_trace::{optional_number, TraceView};
use crate::building::constraint_proofs::hash_values;
use crate::building::finalization::{
    begin_execution, constraint_hashes, finalize_step, profit_with, start_step, with_appended,
    ConstraintVerdict, FinalizationView, FinalizeEvent, FinalizeRequest, OutcomeView, Stage,
    StepView,
};
use crate::building::helper_error::{BlockBuildingHelperError, FinalizeError, ProviderError};
use crate::building::partial_block::{space_sum, BlockSpace, TransactionExecutionInfo};
use crate::building::setup::{new_helper, SetupView};
use crate::building::transaction::TransactionSigned;
use crate::primitives::bytes::B256;
use crate::primitives::clock::UtcTime;
use crate::primitives::numbers::modulus;
use vstd::prelude::*;

verus! {

/// Where a finalization stands after the given answers.
pub open spec fn finalize_run(
    helper: HelperView,
    request: FinalizeRequest,
    events: Seq<FinalizeEvent>,
) -> StepView
    decreases events.len(),
{
    if events.len() == 0 {
        start_step(helper, request)
    } else {
        match finalize_run(helper, request, events.drop_last()) {
            StepView::Perform(f, _) => finalize_step(f, events.last()),
            StepView::Unexpected(f) => finalize_step(f, events.last()),
            StepView::Finished(h, outcome) => StepView::Finished(h, outcome),
        }
    }
}

/// The hashes of the transactions that were appended, by the verdicts on the constraints.
pub open spec fn appended_hashes(verdicts: Seq<ConstraintVerdict>) -> Seq<B256>
    decreases verdicts.len(),
{
    if verdicts.len() == 0 {
        Seq::empty()
    } else {
        match verdicts.last() {
            ConstraintVerdict::Appended(hash) => appended_hashes(verdicts.drop_last()).push(hash),
            _ => appended_hashes(verdicts.drop_last()),
        }
    }
}

/// The hashes of the constraint transactions that were decoded by the given answers, in the order
/// of the constraints.
pub open spec fn decoded_hashes(
    helper: HelperView,
    request: FinalizeRequest,
    events: Seq<FinalizeEvent>,
) -> Seq<B256>
    decreases events.len(),
{
    if events.len() == 0 {
        Seq::empty()
    } else {
        let before = decoded_hashes(helper, request, events.drop_last());
        match finalize_run(helper, request, events.drop_last()) {
            StepView::Perform(f, _) => with_decoded(before, f, events.last()),
            StepView::Unexpected(f) => with_decoded(before, f, events.last()),
            StepView::Finished(_, _) => before,
        }
    }
}

/// The decoded hashes after another answer.
pub open spec fn with_decoded(
    decoded: Seq<B256>,
    f: FinalizationView,
    event: FinalizeEvent,
) -> Seq<B256> {
    match (f.stage, event) {
        (Stage::Decoding(_), FinalizeEvent::Decoded(tx)) => decoded.push(tx.hash),
        _ => decoded,
    }
}

/// Whether a block holds the given transactions, and the proofs that its record holds are theirs,
/// one for each.
pub open spec fn is_proved(h: HelperView, wanted: Seq<B256>) -> bool {
    let hashes = h.partial_block.hashes();
    &&& all_in_block(hashes, hash_values(wanted))
    &&& h.trace.constraint_proofs == inclusion_proofs(
        hashes,
        h.partial_block.values(),
        hash_values(wanted),
        h.context.block,
    )
}

/// Whether `after` differs from `before` only in what finalization is there to set: the
/// transactions, what the block is worth, its constraints and their proofs, and the times of
/// sealing.
pub open spec fn rest_unchanged(before: HelperView, after: HelperView) -> bool {
    after == (HelperView {
        partial_block: after.partial_block,
        adjustable: after.adjustable,
        trace: TraceView {
            coinbase_reward: after.trace.coinbase_reward,
            bid_value: after.trace.bid_value,
            subsidy: after.trace.subsidy,
            true_bid_value: after.trace.true_bid_value,
            mev_blocker_price: after.trace.mev_blocker_price,
            seen_competition_bid: after.trace.seen_competition_bid,
            appended_constraint_txs: after.trace.appended_constraint_txs,
            constraint_proofs: after.trace.constraint_proofs,
            orders_sealed_at: after.trace.orders_sealed_at,
            finalize_time: after.trace.finalize_time,
            finalize_adjust_time: after.trace.finalize_adjust_time,
            root_hash_time: after.trace.root_hash_time,
            ..before.trace
        },
        ..before
    })
}

/// Whether two records agree in what is set only when a block is sealed.
pub open spec fn same_sealing(a: TraceView, b: TraceView) -> bool {
    &&& a.orders_sealed_at == b.orders_sealed_at
    &&& a.seen_competition_bid == b.seen_competition_bid
    &&& a.finalize_time == b.finalize_time
    &&& a.finalize_adjust_time == b.finalize_adjust_time
    &&& a.root_hash_time == b.root_hash_time
}

/// What holds of a finalization under way.
pub open spec fn under_way(
    f: FinalizationView,
    helper: HelperView,
    request: FinalizeRequest,
    decoded: Seq<B256>,
) -> bool {
    let hashes = f.helper.partial_block.hashes();
    let constraints = helper.context.constraints.len();
    &&& f.request == request
    &&& request.adjust == helper.adjustable
    &&& !f.helper.adjustable
    &&& rest_unchanged(helper, f.helper)
    &&& same_sealing(helper.trace, f.helper.trace)
    &&& f.helper.trace.appended_constraint_txs == helper.trace.appended_constraint_txs
        + appended_hashes(f.verdicts)
    &&& match f.stage {
        Stage::Reverting => request.adjust && f.verdicts.len() == 0,
        Stage::Decoding(index) => index == f.verdicts.len() && index < constraints,
        Stage::Executing(index, _) => index == f.verdicts.len() && index < constraints,
        _ => f.verdicts.len() == constraints,
    }
    &&& decoded == match f.stage {
        Stage::Executing(_, hash) => constraint_hashes(f.verdicts).push(hash),
        _ => constraint_hashes(f.verdicts),
    }
    &&& (f.stage is Decoding || f.stage is Executing || f.stage is Paying) ==> {
        &&& hashes == f.executed + hash_values(appended_hashes(f.verdicts))
        &&& !request.adjust ==> f.executed == helper.partial_block.hashes()
        &&& all_in_block(hashes, hash_values(constraint_hashes(f.verdicts)))
    }
    &&& (f.stage is Verifying || f.stage is Sealing) ==> {
        &&& is_proved(f.helper, decoded)
        &&& is_valued(f.helper.trace, helper, request)
    }
}

/// Whether the worth of a block is recorded: at least the payout is bid, and the subsidy and the
/// price are those that were given.
pub open spec fn is_valued(
    trace: TraceView,
    helper: HelperView,
    request: FinalizeRequest,
) -> bool {
    &&& trace.bid_value >= request.payout_tx_value@
    &&& trace.subsidy == request.subsidy@
    &&& trace.mev_blocker_price == helper.context.mev_blocker_price
}

/// Whether an error says that the head, on which the block was built, has moved.
pub open spec fn head_moved(error: BlockBuildingHelperError) -> bool {
    match error {
        BlockBuildingHelperError::FinalizeError(FinalizeError::ConsistentDbView(_)) => true,
        _ => false,
    }
}

/// What holds of a finalization that is over.
pub open spec fn is_over(
    h: HelperView,
    outcome: OutcomeView,
    helper: HelperView,
    request: FinalizeRequest,
    decoded: Seq<B256>,
) -> bool {
    &&& rest_unchanged(helper, h)
    &&& match outcome {
        OutcomeView::Finalized { builder_name, trace, .. } => {
            &&& request.adjust == helper.adjustable
            &&& h.adjustable
            &&& builder_name == helper.builder_name
            &&& trace == h.trace
            &&& decoded.len() == helper.context.constraints.len()
            &&& is_proved(h, decoded)
            &&& is_valued(trace, helper, request)
            &&& trace.seen_competition_bid == optional_number(request.seen_competition_bid)
            &&& request.adjust ==> trace.finalize_time == helper.trace.finalize_time
                && trace.root_hash_time == helper.trace.root_hash_time
            &&& !request.adjust ==> trace.finalize_adjust_time == helper.trace.finalize_adjust_time
        },
        OutcomeView::Failed { error, cancel_slot } => {
            &&& same_sealing(helper.trace, h.trace)
            &&& cancel_slot <==> head_moved(error)
            &&& request.adjust == helper.adjustable ==> !h.adjustable
            &&& request.adjust != helper.adjustable ==> h == helper
                && error is BlockFinalizedIncorrectly
        },
    }
}

proof fn lemma_push_verdict(verdicts: Seq<ConstraintVerdict>, verdict: ConstraintVerdict)
    ensures
        appended_hashes(verdicts.push(verdict)) == match verdict {
            ConstraintVerdict::Appended(hash) => appended_hashes(verdicts).push(hash),
            _ => appended_hashes(verdicts),
        },
        constraint_hashes(verdicts.push(verdict)) == constraint_hashes(verdicts).push(
            verdict.tx_hash(),
        ),
{
    assert(verdicts.push(verdict).drop_last() =~= verdicts);
    assert(constraint_hashes(verdicts.push(verdict)) =~= constraint_hashes(verdicts).push(
        verdict.tx_hash(),
    ));
}

/// What is in a block stays in a longer one, and a hash that is there can be added to those that
/// are wanted.
proof fn lemma_all_in_longer_block(
    before: Seq<Seq<u8>>,
    after: Seq<Seq<u8>>,
    wanted: Seq<B256>,
    hash: B256,
)
    requires
        all_in_block(before, hash_values(wanted)),
        before.len() <= after.len(),
        forall|i: int| 0 <= i < before.len() ==> before[i] == after[i],
        after.contains(hash@),
    ensures
        all_in_block(after, hash_values(wanted.push(hash))),
{
    let all = hash_values(wanted.push(hash));
    assert forall|i: int| 0 <= i < all.len() implies after.contains(#[trigger] all[i]) by {
        if i < wanted.len() {
            assert(before.contains(hash_values(wanted)[i]));
            let k = choose|k: int|
                0 <= k < before.len() && before[k] == hash_values(wanted)[i];
            assert(after[k] == all[i]);
        }
    }
}

/// What holds of a step of a finalization.
spec fn step_holds(
    step: StepView,
    helper: HelperView,
    request: FinalizeRequest,
    decoded: Seq<B256>,
) -> bool {
    match step {
        StepView::Perform(f, action) => {
            &&& under_way(f, helper, request, decoded)
            &&& action is InsertPayout ==> f.stage is Paying
            &&& action is Seal ==> f.stage is Sealing
        },
        StepView::Unexpected(f) => under_way(f, helper, request, decoded),
        StepView::Finished(h, outcome) => is_over(h, outcome, helper, request, decoded),
    }
}

proof fn lemma_begin_execution(f: FinalizationView, helper: HelperView, request: FinalizeRequest)
    requires
        f.request == request,
        request.adjust == helper.adjustable,
        !f.helper.adjustable,
        f.verdicts.len() == 0,
        rest_unchanged(helper, f.helper),
        same_sealing(helper.trace, f.helper.trace),
        f.helper.trace.appended_constraint_txs == helper.trace.appended_constraint_txs,
        !request.adjust ==> f.helper.partial_block == helper.partial_block,
        helper.context.constraints.len() <= usize::MAX,
    ensures
        step_holds(begin_execution(f), helper, request, Seq::empty()),
{
    assert(appended_hashes(f.verdicts) =~= Seq::<B256>::empty());
    assert(constraint_hashes(f.verdicts) =~= Seq::<B256>::empty());
    let hashes = f.helper.partial_block.hashes();
    assert(hashes + hash_values(Seq::<B256>::empty()) =~= hashes);
    assert(helper.trace.appended_constraint_txs + Seq::<B256>::empty()
        =~= helper.trace.appended_constraint_txs);
}

proof fn lemma_start(helper: HelperView, request: FinalizeRequest)
    requires
        helper.context.constraints.len() <= usize::MAX,
    ensures
        step_holds(start_step(helper, request), helper, request, Seq::empty()),
{
    let f = FinalizationView {
        helper: HelperView { adjustable: false, ..helper },
        request,
        stage: Stage::Reverting,
        executed: Seq::empty(),
        verdicts: Seq::empty(),
    };
    assert(appended_hashes(f.verdicts) =~= Seq::<B256>::empty());
    assert(constraint_hashes(f.verdicts) =~= Seq::<B256>::empty());
    assert(helper.trace.appended_constraint_txs + Seq::<B256>::empty()
        =~= helper.trace.appended_constraint_txs);
    if request.adjust == helper.adjustable && !request.adjust {
        lemma_begin_execution(f, helper, request);
    }
}

proof fn lemma_included(
    f: FinalizationView,
    tx: TransactionSigned,
    helper: HelperView,
    request: FinalizeRequest,
    decoded: Seq<B256>,
)
    requires
        under_way(f, helper, request, decoded),
        f.stage is Decoding,
        f.helper.partial_block.hashes().contains(tx.hash@),
        helper.context.constraints.len() <= usize::MAX,
    ensures
        step_holds(
            finalize_step(f, FinalizeEvent::Decoded(tx)),
            helper,
            request,
            decoded.push(tx.hash),
        ),
{
    let hashes = f.helper.partial_block.hashes();
    lemma_push_verdict(f.verdicts, ConstraintVerdict::AlreadyIncluded(tx.hash));
    lemma_all_in_longer_block(hashes, hashes, constraint_hashes(f.verdicts), tx.hash);
}

proof fn lemma_committed(
    f: FinalizationView,
    info: TransactionExecutionInfo,
    helper: HelperView,
    request: FinalizeRequest,
    decoded: Seq<B256>,
)
    requires
        under_way(f, helper, request, decoded),
        f.stage matches Stage::Executing(_, hash) && hash == info.tx.hash,
        helper.context.constraints.len() <= usize::MAX,
    ensures
        step_holds(finalize_step(f, FinalizeEvent::Committed(info)), helper, request, decoded),
{
    let hash = info.tx.hash;
    lemma_push_verdict(f.verdicts, ConstraintVerdict::Appended(hash));
    let g = with_appended(f, info);
    let before = f.helper.partial_block.hashes();
    let after = g.helper.partial_block.hashes();
    assert(after =~= before.push(hash@));
    assert(after[before.len() as int] == hash@);
    let appended = appended_hashes(f.verdicts);
    assert(hash_values(appended.push(hash)) =~= hash_values(appended).push(hash@));
    assert(after =~= f.executed + hash_values(appended.push(hash)));
    assert(g.helper.trace.appended_constraint_txs =~= helper.trace.appended_constraint_txs
        + appended.push(hash));
    lemma_all_in_longer_block(before, after, constraint_hashes(f.verdicts), hash);
}

proof fn lemma_step(
    f: FinalizationView,
    event: FinalizeEvent,
    helper: HelperView,
    request: FinalizeRequest,
    decoded: Seq<B256>,
)
    requires
        under_way(f, helper, request, decoded),
        helper.context.constraints.len() <= usize::MAX,
    ensures
        step_holds(finalize_step(f, event), helper, request, with_decoded(decoded, f, event)),
{
    match (f.stage, event) {
        (Stage::Reverting, FinalizeEvent::Reverted(block)) => {
            let g = FinalizationView {
                helper: HelperView { partial_block: block@, ..f.helper },
                ..f
            };
            assert(appended_hashes(f.verdicts) =~= Seq::<B256>::empty());
            assert(constraint_hashes(f.verdicts) =~= Seq::<B256>::empty());
            assert(helper.trace.appended_constraint_txs + Seq::<B256>::empty()
                =~= helper.trace.appended_constraint_txs);
            lemma_begin_execution(g, helper, request);
        },
        (Stage::Decoding(_), FinalizeEvent::Decoded(tx)) => {
            if f.helper.partial_block.hashes().contains(tx.hash@) {
                lemma_included(f, tx, helper, request, decoded);
            }
        },
        (Stage::Executing(_, hash), FinalizeEvent::Committed(info)) => {
            if info.tx.hash == hash {
                lemma_committed(f, info, helper, request, decoded);
            }
        },
        _ => {},
    }
}

proof fn lemma_run(helper: HelperView, request: FinalizeRequest, events: Seq<FinalizeEvent>)
    requires
        helper.context.constraints.len() <= usize::MAX,
    ensures
        step_holds(
            finalize_run(helper, request, events),
            helper,
            request,
            decoded_hashes(helper, request, events),
        ),
    decreases events.len(),
{
    if events.len() == 0 {
        lemma_start(helper, request);
    } else {
        let before = events.drop_last();
        lemma_run(helper, request, before);
        let decoded = decoded_hashes(helper, request, before);
        match finalize_run(helper, request, before) {
            StepView::Perform(f, _) => lemma_step(f, events.last(), helper, request, decoded),
            StepView::Unexpected(f) => lemma_step(f, events.last(), helper, request, decoded),
            StepView::Finished(_, _) => {},
        }
    }
}

/// Every finalization stays in order: what holds while it is under way, and what holds once it is
/// over, hold whatever the answers are.
pub proof fn run_stays_in_order(
    helper: HelperView,
    request: FinalizeRequest,
    events: Seq<FinalizeEvent>,
)
    requires
        helper.context.constraints.len() <= usize::MAX,
    ensures
        ({
            let decoded = decoded_hashes(helper, request, events);
            match finalize_run(helper, request, events) {
                StepView::Perform(f, action) => {
                    &&& under_way(f, helper, request, decoded)
                    &&& action is InsertPayout ==> f.stage is Paying
                    &&& action is Seal ==> f.stage is Sealing
                },
                StepView::Unexpected(f) => under_way(f, helper, request, decoded),
                StepView::Finished(h, outcome) => is_over(h, outcome, helper, request, decoded),
            }
        }),
{
    lemma_run(helper, request, events);
}

/// Constraint transactions come before the payout: when the payout is asked for, the transaction
/// of every constraint was decoded, and the block holds them all. The transactions that it held
/// before come first, in their order, then those that were appended, in the order of the
/// constraints.
pub proof fn constraints_precede_payout(
    helper: HelperView,
    request: FinalizeRequest,
    events: Seq<FinalizeEvent>,
)
    requires
        helper.context.constraints.len() <= usize::MAX,
    ensures
        finalize_run(helper, request, events) matches StepView::Perform(f, action)
            ==> action is InsertPayout ==> {
            let decoded = decoded_hashes(helper, request, events);
            &&& decoded.len() == helper.context.constraints.len()
            &&& all_in_block(f.helper.partial_block.hashes(), hash_values(decoded))
            &&& f.helper.partial_block.hashes() == f.executed + hash_values(
                appended_hashes(f.verdicts),
            )
            &&& !request.adjust ==> f.executed == helper.partial_block.hashes()
        },
{
    lemma_run(helper, request, events);
}

/// Appended constraint transactions are tracked: the record lists exactly the transactions that
/// the verdicts say were appended, after those that it listed before.
pub proof fn appended_transactions_are_tracked(
    helper: HelperView,
    request: FinalizeRequest,
    events: Seq<FinalizeEvent>,
)
    requires
        helper.context.constraints.len() <= usize::MAX,
    ensures
        finalize_run(helper, request, events) matches StepView::Perform(f, _) ==> (
        f.helper.trace.appended_constraint_txs == helper.trace.appended_constraint_txs
            + appended_hashes(f.verdicts)),
{
    lemma_run(helper, request, events);
}

/// A constraint transaction that cannot be executed ends the finalization: a block without it is
/// not finished.
pub proof fn rejected_constraint_fails_the_block(f: FinalizationView, index: usize, hash: B256)
    requires
        f.stage == Stage::Executing(index, hash),
    ensures
        finalize_step(f, FinalizeEvent::NotCommitted) == StepView::Finished(
            f.helper,
            OutcomeView::Failed {
                error: BlockBuildingHelperError::ProviderError(
                    ProviderError::ConstraintNotIncluded(hash),
                ),
                cancel_slot: false,
            },
        ),
{
}

/// The profit is the accumulated coinbase delta: a constraint transaction by which the coinbase
/// gains raises it by as much, and one by which it loses lowers it by as much. The room that the
/// transaction takes is used up.
pub proof fn appended_transaction_counts_by_its_delta(
    f: FinalizationView,
    info: TransactionExecutionInfo,
)
    requires
        0 <= profit_with(f, info) < modulus(),
    ensures
        ({
            let before = f.helper.partial_block;
            let after = with_appended(f, info).helper.partial_block;
            &&& after.coinbase_profit == before.coinbase_profit + info.coinbase_profit@
            &&& after.space_used == space_sum(before.space_used, info.space_used)
            &&& after.space_reserved == before.space_reserved
            &&& after.transactions == before.transactions.push(info@)
        }),
{
    let profit = profit_with(f, info);
    assert(profit % modulus() == profit) by (nonlinear_arith)
        requires
            0 <= profit < modulus(),
    ;
}

/// A constraint whose transaction was in the block already is not executed again.
pub proof fn included_constraint_is_not_repeated(
    f: FinalizationView,
    index: usize,
    tx: TransactionSigned,
)
    requires
        f.stage == Stage::Decoding(index),
        f.helper.partial_block.hashes().contains(tx.hash@),
    ensures
        match finalize_step(f, FinalizeEvent::Decoded(tx)) {
            StepView::Perform(g, action) => g.helper == f.helper && !(action is ExecuteConstraint),
            _ => false,
        },
{
}

/// A block is sealed only after the transactions of all its constraints were proved to be in it,
/// and a finished block carries a proof for each of them, whether it was appended or there before.
pub proof fn finalized_block_is_proved(
    helper: HelperView,
    request: FinalizeRequest,
    events: Seq<FinalizeEvent>,
)
    requires
        helper.context.constraints.len() <= usize::MAX,
    ensures
        finalize_run(helper, request, events) matches StepView::Perform(f, action)
            ==> action is Seal ==> is_proved(f.helper, decoded_hashes(helper, request, events)),
        finalize_run(helper, request, events) matches StepView::Finished(h, outcome)
            ==> outcome is Finalized ==> {
            &&& is_proved(h, decoded_hashes(helper, request, events))
            &&& outcome->trace == h.trace
            &&& h.trace.constraint_proofs.proofs.len() == helper.context.constraints.len()
        },
{
    lemma_run(helper, request, events);
}

/// A finished block bids at least the payout that was asked for.
pub proof fn bid_covers_payout(
    helper: HelperView,
    request: FinalizeRequest,
    events: Seq<FinalizeEvent>,
)
    requires
        helper.context.constraints.len() <= usize::MAX,
    ensures
        finalize_run(helper, request, events) matches StepView::Finished(_, outcome)
            ==> outcome is Finalized ==> outcome->trace.bid_value >= request.payout_tx_value@,
{
    lemma_run(helper, request, events);
}

/// A finished block records what it was asked for: it has the name of its builder, the subsidy and
/// the competing bid of the request, and the price of its context. An adjustment keeps the times of
/// the first finalization, which in turn leaves the time of adjustments alone.
pub proof fn finished_block_records_the_request(
    helper: HelperView,
    request: FinalizeRequest,
    events: Seq<FinalizeEvent>,
)
    requires
        helper.context.constraints.len() <= usize::MAX,
    ensures
        finalize_run(helper, request, events) matches StepView::Finished(
            h,
            OutcomeView::Finalized { builder_name, trace, .. },
        ) ==> {
            &&& trace == h.trace
            &&& builder_name == helper.builder_name
            &&& trace.subsidy == request.subsidy@
            &&& trace.seen_competition_bid == optional_number(request.seen_competition_bid)
            &&& trace.mev_blocker_price == helper.context.mev_blocker_price
            &&& request.adjust ==> trace.finalize_time == helper.trace.finalize_time
                && trace.root_hash_time == helper.trace.root_hash_time
            &&& !request.adjust ==> trace.finalize_adjust_time == helper.trace.finalize_adjust_time
        },
{
    lemma_run(helper, request, events);
}

/// A finalization that failed leaves what is set at sealing as it was.
pub proof fn failed_finalization_seals_nothing(
    helper: HelperView,
    request: FinalizeRequest,
    events: Seq<FinalizeEvent>,
)
    requires
        helper.context.constraints.len() <= usize::MAX,
    ensures
        finalize_run(helper, request, events) matches StepView::Finished(
            h,
            OutcomeView::Failed { .. },
        ) ==> same_sealing(helper.trace, h.trace),
{
    lemma_run(helper, request, events);
}

/// A block that was finalized can be adjusted and not be finalized again; one whose finalization
/// failed can be finalized and not be adjusted.
pub proof fn finalized_block_is_adjusted_next(
    helper: HelperView,
    request: FinalizeRequest,
    events: Seq<FinalizeEvent>,
    next: FinalizeRequest,
)
    requires
        helper.context.constraints.len() <= usize::MAX,
        request.adjust == helper.adjustable,
    ensures
        finalize_run(helper, request, events) matches StepView::Finished(h, outcome) ==> (
        start_step(h, next) is Finished <==> next.adjust != (outcome is Finalized)),
{
    lemma_run(helper, request, events);
}

/// A block that was just set up can be finalized and not be adjusted.
pub proof fn new_block_is_finalized_first(
    setup: SetupView,
    balance: int,
    payout_tx_space: BlockSpace,
    now: UtcTime,
    request: FinalizeRequest,
)
    ensures
        start_step(new_helper(setup, balance, payout_tx_space, now), request) is Finished
            <==> request.adjust,
{
}

/// A request that does not fit the block is refused, and changes nothing.
pub proof fn refused_request_changes_nothing(
    helper: HelperView,
    request: FinalizeRequest,
    events: Seq<FinalizeEvent>,
)
    requires
        request.adjust != helper.adjustable,
    ensures
        finalize_run(helper, request, events) == StepView::Finished(
            helper,
            OutcomeView::Failed {
                error: BlockBuildingHelperError::BlockFinalizedIncorrectly,
                cancel_slot: false,
            },
        ),
    decreases events.len(),
{
    if events.len() > 0 {
        refused_request_changes_nothing(helper, request, events.drop_last());
    }
}

/// A slot is cancelled exactly where the head has moved while the block was sealed, which is not
/// a critical error.
pub proof fn slot_is_cancelled_when_head_moved(
    helper: HelperView,
    request: FinalizeRequest,
    events: Seq<FinalizeEvent>,
)
    requires
        helper.context.constraints.len() <= usize::MAX,
    ensures
        finalize_run(helper, request, events) matches StepView::Finished(
            _,
            OutcomeView::Failed { error, cancel_slot },
        ) ==> {
            &&& cancel_slot <==> head_moved(error)
            &&& cancel_slot ==> !error.critical()
        },
{
    lemma_run(helper, request, events);
}

/// Finalization leaves the orders, the context and the name of the builder as they were.
pub proof fn finalization_keeps_orders(
    helper: HelperView,
    request: FinalizeRequest,
    events: Seq<FinalizeEvent>,
)
    requires
        helper.context.constraints.len() <= usize::MAX,
    ensures
        finalize_run(helper, request, events) matches StepView::Finished(h, _) ==> rest_unchanged(
            helper,
            h,
        ),
{
    lemma_run(helper, request, events);
}

} // verus!
