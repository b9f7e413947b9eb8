//! What the answers of a whole finalization come to.

use crate::building::block_building_helper::HelperView;
use crate::building::built_block_trace::TraceView;
use crate::building::constraint_proofs::{hash_values, indexed_entries};
use crate::building::finalization::{
    finalize_step, start_step, ActionView, FinalizationView, FinalizeEvent, FinalizeRequest,
    OutcomeView, Stage, StepView,
};
use crate::building::finalization_laws::{
    decoded_hashes, finalize_run, finalized_block_is_proved, run_stays_in_order,
};
use crate::building::trie::{trie_proof, trie_root};
use crate::primitives::numbers::u256_range;
use crate::primitives::rlp::rlp_uint;
use vstd::prelude::*;

verus! {

/// The payload that a step asks to have decoded, if it asks for one.
pub open spec fn asked_by(step: StepView) -> Seq<Seq<u8>> {
    match step {
        StepView::Perform(_, ActionView::DecodeConstraint { index: _, payload }) => seq![payload],
        _ => Seq::empty(),
    }
}

/// The payloads that a finalization asked to have decoded, in order.
pub open spec fn asked_payloads(
    helper: HelperView,
    request: FinalizeRequest,
    events: Seq<FinalizeEvent>,
) -> Seq<Seq<u8>>
    decreases events.len(),
{
    if events.len() == 0 {
        asked_by(start_step(helper, request))
    } else {
        let before = asked_payloads(helper, request, events.drop_last());
        match finalize_run(helper, request, events.drop_last()) {
            StepView::Finished(_, _) => before,
            _ => before + asked_by(finalize_run(helper, request, events)),
        }
    }
}

/// How many payloads were asked for in a stage.
spec fn asked_until(stage: Stage, constraints: nat) -> int {
    match stage {
        Stage::Reverting => 0,
        Stage::Decoding(index) => index + 1,
        Stage::Executing(index, _) => index + 1,
        _ => constraints as int,
    }
}

proof fn lemma_asked(helper: HelperView, request: FinalizeRequest, events: Seq<FinalizeEvent>)
    requires
        helper.context.constraints.len() <= usize::MAX,
    ensures
        ({
            let constraints = helper.context.constraints;
            let asked = asked_payloads(helper, request, events);
            match finalize_run(helper, request, events) {
                StepView::Perform(f, action) => {
                    &&& asked == constraints.take(asked_until(f.stage, constraints.len()))
                    &&& action matches ActionView::DecodeConstraint { index, payload } ==> index
                        < constraints.len() && payload == constraints[index as int]
                },
                StepView::Unexpected(f) => asked == constraints.take(
                    asked_until(f.stage, constraints.len()),
                ),
                StepView::Finished(_, outcome) => outcome is Finalized ==> asked == constraints,
            }
        }),
    decreases events.len(),
{
    let constraints = helper.context.constraints;
    let asked = asked_payloads(helper, request, events);
    assert(constraints.take(constraints.len() as int) =~= constraints);
    assert(constraints.take(0) =~= Seq::empty());
    run_stays_in_order(helper, request, events);
    if events.len() == 0 {
        if constraints.len() > 0 {
            assert(constraints.take(1) =~= seq![constraints[0]]);
        }
    } else {
        let earlier = events.drop_last();
        lemma_asked(helper, request, earlier);
        run_stays_in_order(helper, request, earlier);
        let before = asked_payloads(helper, request, earlier);
        match finalize_run(helper, request, earlier) {
            StepView::Finished(_, _) => {},
            StepView::Perform(f, _) => {
                lemma_asked_step(f, events.last(), helper, request, before);
            },
            StepView::Unexpected(f) => {
                lemma_asked_step(f, events.last(), helper, request, before);
            },
        }
    }
}

proof fn lemma_asked_step(
    f: FinalizationView,
    event: FinalizeEvent,
    helper: HelperView,
    request: FinalizeRequest,
    before: Seq<Seq<u8>>,
)
    requires
        helper.context.constraints.len() <= usize::MAX,
        f.helper.context == helper.context,
        match f.stage {
            Stage::Decoding(index) => index < helper.context.constraints.len(),
            Stage::Executing(index, _) => index < helper.context.constraints.len(),
            _ => true,
        },
        before == helper.context.constraints.take(
            asked_until(f.stage, helper.context.constraints.len()),
        ),
    ensures
        ({
            let constraints = helper.context.constraints;
            let step = finalize_step(f, event);
            let asked = before + asked_by(step);
            match step {
                StepView::Perform(g, action) => {
                    &&& asked == constraints.take(asked_until(g.stage, constraints.len()))
                    &&& action matches ActionView::DecodeConstraint { index, payload } ==> index
                        < constraints.len() && payload == constraints[index as int]
                },
                StepView::Unexpected(g) => asked == constraints.take(
                    asked_until(g.stage, constraints.len()),
                ),
                StepView::Finished(_, outcome) => outcome is Finalized ==> asked == constraints,
            }
        }),
{
    let constraints = helper.context.constraints;
    let step = finalize_step(f, event);
    assert(constraints.take(constraints.len() as int) =~= constraints);
    assert(constraints.take(0) =~= Seq::empty());
    assert(before + Seq::<Seq<u8>>::empty() =~= before);
    match step {
        StepView::Perform(g, ActionView::DecodeConstraint { index, payload }) => {
            assert(constraints.take(index + 1) =~= constraints.take(index as int).push(
                constraints[index as int],
            ));
            assert(before + seq![payload] =~= before.push(payload));
        },
        _ => {},
    }
}

/// Each constraint is asked for with its own payload. A finalization that reaches the payout, and
/// one that finishes its block, has asked for the payloads of all constraints of the context, each
/// once and in order.
pub proof fn every_constraint_is_asked_for_by_its_payload(
    helper: HelperView,
    request: FinalizeRequest,
    events: Seq<FinalizeEvent>,
)
    requires
        helper.context.constraints.len() <= usize::MAX,
    ensures
        finalize_run(helper, request, events) matches StepView::Perform(
            _,
            ActionView::DecodeConstraint { index, payload },
        ) ==> index < helper.context.constraints.len() && payload
            == helper.context.constraints[index as int],
        finalize_run(helper, request, events) matches StepView::Perform(_, action)
            ==> action is InsertPayout ==> asked_payloads(helper, request, events)
            == helper.context.constraints,
        finalize_run(helper, request, events) matches StepView::Finished(_, outcome)
            ==> outcome is Finalized ==> asked_payloads(helper, request, events)
            == helper.context.constraints,
{
    lemma_asked(helper, request, events);
    let constraints = helper.context.constraints;
    assert(constraints.take(constraints.len() as int) =~= constraints);
    run_stays_in_order(helper, request, events);
}

/// Whether a record tells the worth of a block as the answers at two places gave it: what the block
/// could pay is the value that was computed, and the bid is the larger of the payout and what the
/// fee recipient gained.
pub open spec fn worth_is_told_at(
    trace: TraceView,
    helper: HelperView,
    request: FinalizeRequest,
    events: Seq<FinalizeEvent>,
    k: int,
    i: int,
) -> bool {
    let payout = request.payout_tx_value@;
    let gained = events[i]->Balance_0@ - helper.fee_recipient_balance_start;
    &&& 0 <= k < i < events.len()
    &&& events[k] is BlockValued
    &&& events[i] is Balance
    &&& trace.true_bid_value == events[k]->BlockValued_0@
    &&& trace.bid_value >= payout
    &&& trace.bid_value >= gained
    &&& trace.bid_value == payout || trace.bid_value == gained
}

spec fn worth_is_told(
    trace: TraceView,
    helper: HelperView,
    request: FinalizeRequest,
    events: Seq<FinalizeEvent>,
) -> bool {
    exists|k: int, i: int| #[trigger] worth_is_told_at(trace, helper, request, events, k, i)
}

/// Whether what a stage knows of the worth of a block is what the answers gave.
spec fn worth_so_far(
    f: FinalizationView,
    helper: HelperView,
    request: FinalizeRequest,
    events: Seq<FinalizeEvent>,
) -> bool {
    match f.stage {
        Stage::Balancing(value) => exists|k: int|
            0 <= k < events.len() && #[trigger] events[k] == FinalizeEvent::BlockValued(value),
        Stage::Verifying => worth_is_told(f.helper.trace, helper, request, events),
        Stage::Sealing => worth_is_told(f.helper.trace, helper, request, events),
        _ => true,
    }
}

proof fn lemma_worth_stays(
    trace: TraceView,
    helper: HelperView,
    request: FinalizeRequest,
    events: Seq<FinalizeEvent>,
    event: FinalizeEvent,
)
    requires
        worth_is_told(trace, helper, request, events),
    ensures
        worth_is_told(trace, helper, request, events.push(event)),
{
    let (k, i) = choose|k: int, i: int| #[trigger]
        worth_is_told_at(trace, helper, request, events, k, i);
    let all = events.push(event);
    assert(all[k] == events[k]);
    assert(all[i] == events[i]);
    assert(worth_is_told_at(trace, helper, request, all, k, i));
}

proof fn lemma_worth_step(
    f: FinalizationView,
    helper: HelperView,
    request: FinalizeRequest,
    events: Seq<FinalizeEvent>,
    event: FinalizeEvent,
)
    requires
        f.request == request,
        f.helper.fee_recipient_balance_start == helper.fee_recipient_balance_start,
        worth_so_far(f, helper, request, events),
    ensures
        match finalize_step(f, event) {
            StepView::Perform(g, _) => worth_so_far(g, helper, request, events.push(event)),
            StepView::Unexpected(g) => worth_so_far(g, helper, request, events.push(event)),
            StepView::Finished(_, OutcomeView::Finalized { trace, .. }) => worth_is_told(
                trace,
                helper,
                request,
                events.push(event),
            ),
            _ => true,
        },
{
    let all = events.push(event);
    let last = events.len() as int;
    assert(all[last] == event);
    u256_range(request.payout_tx_value);
    if f.stage is Balancing {
        let value = f.stage->Balancing_0;
        let k = choose|k: int|
            0 <= k < events.len() && #[trigger] events[k] == FinalizeEvent::BlockValued(value);
        assert(all[k] == FinalizeEvent::BlockValued(value));
        match finalize_step(f, event) {
            StepView::Perform(g, _) => {
                assert(worth_is_told_at(g.helper.trace, helper, request, all, k, last));
            },
            _ => {},
        }
    }
    if f.stage is Verifying || f.stage is Sealing {
        lemma_worth_stays(f.helper.trace, helper, request, events, event);
        match finalize_step(f, event) {
            StepView::Finished(_, OutcomeView::Finalized { trace, .. }) => {
                let told = f.helper.trace;
                let (k, i) = choose|k: int, i: int| #[trigger]
                    worth_is_told_at(told, helper, request, all, k, i);
                assert(worth_is_told_at(trace, helper, request, all, k, i));
            },
            _ => {},
        }
    }
}

proof fn lemma_worth(helper: HelperView, request: FinalizeRequest, events: Seq<FinalizeEvent>)
    requires
        helper.context.constraints.len() <= usize::MAX,
    ensures
        match finalize_run(helper, request, events) {
            StepView::Perform(f, _) => worth_so_far(f, helper, request, events),
            StepView::Unexpected(f) => worth_so_far(f, helper, request, events),
            StepView::Finished(_, OutcomeView::Finalized { trace, .. }) => worth_is_told(
                trace,
                helper,
                request,
                events,
            ),
            _ => true,
        },
    decreases events.len(),
{
    if events.len() > 0 {
        let earlier = events.drop_last();
        lemma_worth(helper, request, earlier);
        run_stays_in_order(helper, request, earlier);
        assert(earlier.push(events.last()) =~= events);
        match finalize_run(helper, request, earlier) {
            StepView::Perform(f, _) => lemma_worth_step(
                f,
                helper,
                request,
                earlier,
                events.last(),
            ),
            StepView::Unexpected(f) => lemma_worth_step(
                f,
                helper,
                request,
                earlier,
                events.last(),
            ),
            StepView::Finished(_, OutcomeView::Finalized { trace, .. }) => lemma_worth_stays(
                trace,
                helper,
                request,
                earlier,
                events.last(),
            ),
            _ => {},
        }
    }
}

/// A finished block bids the larger of the payout that was asked for and what the fee recipient's
/// balance gained since the block was set up: at least each of the two, and one of them, whatever
/// the block was found to be worth. Its true value is the one that was computed.
pub proof fn finished_block_bids_what_the_proposer_gets(
    helper: HelperView,
    request: FinalizeRequest,
    events: Seq<FinalizeEvent>,
)
    requires
        helper.context.constraints.len() <= usize::MAX,
    ensures
        finalize_run(helper, request, events) matches StepView::Finished(
            h,
            OutcomeView::Finalized { trace, .. },
        ) ==> exists|k: int, i: int| #[trigger]
            worth_is_told_at(trace, helper, request, events, k, i),
{
    lemma_worth(helper, request, events);
}

/// What is asked for carries what was requested and what the block was set up with: the payout and
/// its gas, the account whose balance counts, and whether a finished block is adjusted.
pub proof fn actions_carry_the_request(
    helper: HelperView,
    request: FinalizeRequest,
    events: Seq<FinalizeEvent>,
)
    requires
        helper.context.constraints.len() <= usize::MAX,
    ensures
        finalize_run(helper, request, events) matches StepView::Perform(_, action) ==> match action {
            ActionView::InsertPayout { payout_tx_gas, payout_tx_value, adjust } => {
                &&& payout_tx_gas == helper.payout_tx_gas
                &&& payout_tx_value == request.payout_tx_value@
                &&& adjust == request.adjust
            },
            ActionView::ValueBlock { payout_tx_gas } => payout_tx_gas == helper.payout_tx_gas,
            ActionView::ReadBalance { account } => account
                == helper.context.suggested_fee_recipient,
            ActionView::VerifyBundles => !request.adjust,
            ActionView::Seal { adjust } => adjust == request.adjust,
            ActionView::RevertToPrefinalized => request.adjust,
            _ => true,
        },
    decreases events.len(),
{
    if events.len() > 0 {
        let earlier = events.drop_last();
        run_stays_in_order(helper, request, earlier);
        actions_carry_the_request(helper, request, earlier);
    }
}

/// The reward of the coinbase is what it had gained before constraints were appended.
pub proof fn reward_is_the_profit_before_constraints(
    helper: HelperView,
    request: FinalizeRequest,
    events: Seq<FinalizeEvent>,
)
    requires
        helper.context.constraints.len() <= usize::MAX,
        request.adjust == helper.adjustable,
        !request.adjust,
    ensures
        match finalize_run(helper, request, events) {
            StepView::Perform(f, _) => f.helper.trace.coinbase_reward
                == helper.partial_block.coinbase_profit,
            StepView::Unexpected(f) => f.helper.trace.coinbase_reward
                == helper.partial_block.coinbase_profit,
            StepView::Finished(h, _) => h.trace.coinbase_reward
                == helper.partial_block.coinbase_profit,
        },
    decreases events.len(),
{
    if events.len() > 0 {
        let earlier = events.drop_last();
        run_stays_in_order(helper, request, earlier);
        reward_is_the_profit_before_constraints(helper, request, earlier);
    }
}

/// A finished block carries one proof for each constraint, in order: for the transaction that was
/// decoded from it, at the first place where the block holds that transaction, with the nodes of
/// the trie over the block's transactions, and under the root of that trie.
pub proof fn finished_block_proves_each_constraint(
    helper: HelperView,
    request: FinalizeRequest,
    events: Seq<FinalizeEvent>,
)
    requires
        helper.context.constraints.len() <= usize::MAX,
    ensures
        finalize_run(helper, request, events) matches StepView::Finished(
            h,
            OutcomeView::Finalized { trace, .. },
        ) ==> {
            let decoded = decoded_hashes(helper, request, events);
            let txs = h.partial_block.transactions;
            let entries = indexed_entries(Seq::new(txs.len(), |i: int| txs[i].rlp));
            &&& decoded.len() == helper.context.constraints.len()
            &&& trace.constraint_proofs.block_number == helper.context.block
            &&& trace.constraint_proofs.transactions_root == trie_root(entries)
            &&& trace.constraint_proofs.proofs.len() == decoded.len()
            &&& forall|i: int|
                0 <= i < decoded.len() ==> {
                    let proof = #[trigger] trace.constraint_proofs.proofs[i];
                    &&& proof.tx_hash == decoded[i]@
                    &&& 0 <= proof.tx_index < txs.len()
                    &&& txs[proof.tx_index].hash == decoded[i]@
                    &&& forall|j: int|
                        0 <= j < proof.tx_index ==> (#[trigger] txs[j]).hash != decoded[i]@
                    &&& proof.proof == trie_proof(entries, true, rlp_uint(proof.tx_index as nat))
                }
        },
{
    run_stays_in_order(helper, request, events);
    finalized_block_is_proved(helper, request, events);
    match finalize_run(helper, request, events) {
        StepView::Finished(h, OutcomeView::Finalized { trace, .. }) => {
            let decoded = decoded_hashes(helper, request, events);
            let txs = h.partial_block.transactions;
            let values = Seq::new(txs.len(), |i: int| txs[i].rlp);
            let hashes = h.partial_block.hashes();
            assert(values =~= h.partial_block.values());
            assert forall|i: int| 0 <= i < decoded.len() implies {
                let proof = #[trigger] trace.constraint_proofs.proofs[i];
                &&& proof.tx_hash == decoded[i]@
                &&& 0 <= proof.tx_index < txs.len()
                &&& txs[proof.tx_index].hash == decoded[i]@
                &&& forall|j: int|
                    0 <= j < proof.tx_index ==> (#[trigger] txs[j]).hash != decoded[i]@
                &&& proof.proof == trie_proof(
                    indexed_entries(values),
                    true,
                    rlp_uint(proof.tx_index as nat),
                )
            } by {
                assert(hashes.contains(hash_values(decoded)[i]));
                hashes.index_of_first_ensures(decoded[i]@);
                let proof = trace.constraint_proofs.proofs[i];
                assert forall|j: int| 0 <= j < proof.tx_index implies (#[trigger] txs[j]).hash
                    != decoded[i]@ by {
                    assert(hashes[j] == txs[j].hash);
                }
                assert(hashes[proof.tx_index] == txs[proof.tx_index].hash);
            }
        },
        _ => {},
    }
}

} // verus!
