//! What the RPC server that takes constraints in does with a submission.

use crate::building::transaction::enveloped_transaction;
use crate::constraint_input::bundles::{
    constraint_to_individual_bundles, first_decodable, is_constraint_bundle, Bundle,
};
use crate::primitives::bytes::byte_strings;
use crate::primitives::constraints::{encodable, keccak256_of, ssz_constraints, Constraints};
use crate::primitives::decimal::{decimal, decimal_text};
use vstd::prelude::*;
use vstd::string::*;

verus! {

/// Name of the method that takes constraints in
pub const SUBMIT_CONSTRAINTS: &'static str = "submitConstraints";

/// Code of the answer to parameters that are not constraints
pub const INVALID_PARAMS: i32 = -32602;

/// Code of the answer where the pool does not take constraints in time
pub const OVERLOADED: i32 = -32000;

/// Code of the answer where the pool is gone
pub const INTERNAL_ERROR: i32 = -32603;

/// An answer that says what went wrong.
#[derive(Debug, Clone)]
pub struct RpcError {
    pub code: i32,
    pub message: String,
}

/// How sending constraints to the pool went.
#[derive(Debug, Clone, Copy, PartialEq, Eq, Structural)]
pub enum SendOutcome {
    Sent,
    /// The pool did not take them in time.
    Timeout,
    /// The pool is gone.
    Closed,
}

/// What is to be done next with a submission.
#[derive(Debug)]
pub enum SubmitAction {
    /// Send a bundle to the order pipeline.
    SendBundle(Bundle),
    /// Send the constraints to the pool.
    SendConstraints(Constraints),
}

/// What is told of the last action.
#[derive(Debug, Clone, Copy, PartialEq, Eq, Structural)]
pub enum SubmitEvent {
    /// Sending a bundle has ended, well or not.
    BundleSent { ok: bool },
    ConstraintsSent(SendOutcome),
}

/// A submission under way.
#[derive(Debug)]
pub struct Submission {
    block: u64,
    /// Constraints that are still to be sent to the pool
    constraints: Option<Constraints>,
    /// Bundles that are still to be sent, the last one first
    bundles: Vec<Bundle>,
    sent_count: usize,
}

/// What is left of a submission.
pub struct SubmissionView {
    pub block: u64,
    /// Constraints that are still to be sent to the pool
    pub constraints: Option<Constraints>,
    /// Bundles that are still to be sent, in order
    pub bundles: Seq<Bundle>,
    /// Bundles that were sent
    pub sent_count: int,
}

impl View for Submission {
    type V = SubmissionView;

    closed spec fn view(&self) -> SubmissionView {
        SubmissionView {
            block: self.block,
            constraints: self.constraints,
            bundles: self.bundles@.reverse(),
            sent_count: self.sent_count as int,
        }
    }
}

/// Where a submission stands.
#[derive(Debug)]
pub enum SubmitStep {
    /// It goes on with this action.
    Perform(Submission, SubmitAction),
    /// It is answered.
    Respond(Result<String, RpcError>),
    /// What was told does not belong to the last action; nothing has changed.
    Unexpected(Submission),
}

/// Whether an error answers with a code and a text.
pub open spec fn is_error(error: RpcError, code: i32, message: Seq<char>) -> bool {
    error.code == code && error.message@ == message
}

/// Whether a step takes the next bundle of a submission or, after the last one, its constraints.
pub open spec fn is_next_send(step: SubmitStep, s: SubmissionView) -> bool {
    if s.bundles.len() > 0 {
        &&& step matches SubmitStep::Perform(left, SubmitAction::SendBundle(bundle))
        &&& left.wf()
        &&& bundle == s.bundles.first()
        &&& left@ == (SubmissionView { bundles: s.bundles.drop_first(), ..s })
    } else {
        &&& s.constraints is Some
        &&& step matches SubmitStep::Perform(left, SubmitAction::SendConstraints(constraints))
        &&& left.wf()
        &&& constraints == s.constraints->0
        &&& left@ == (SubmissionView { constraints: None, ..s })
    }
}

/// Whether an answer is the one to a submission that was sent to the pool with this outcome.
pub open spec fn is_answer(answer: Result<String, RpcError>, block: u64, outcome: SendOutcome) -> bool {
    match outcome {
        SendOutcome::Sent => answer matches Ok(text) && text@ == "block_"@ + decimal(block as nat),
        SendOutcome::Timeout => answer matches Err(e) && is_error(e, OVERLOADED, "overloaded"@),
        SendOutcome::Closed => answer matches Err(e) && is_error(
            e,
            INTERNAL_ERROR,
            "internal error"@,
        ),
    }
}

/// Whether bundles are those of constraints: one for each transaction, or none where one of the
/// transactions cannot be decoded.
pub open spec fn are_bundles_of(bundles: Seq<Bundle>, constraints: Constraints) -> bool {
    let encoded = byte_strings(constraints.message.transactions@);
    let block = constraints.message.block;
    if first_decodable(encoded, encoded.len() as int) {
        &&& bundles.len() == encoded.len()
        &&& forall|i: int|
            0 <= i < bundles.len() ==> is_constraint_bundle(
                #[trigger] bundles[i],
                Some(block),
                keccak256_of(ssz_constraints(block, encoded)),
                enveloped_transaction(encoded[i])->0,
            )
    } else {
        bundles.len() == 0
    }
}

/// Where a submission begins. Parameters that are not constraints are refused.
pub fn submit(parsed: Option<Constraints>) -> (step: SubmitStep)
    ensures
        match parsed {
            Some(constraints) => if encodable(byte_strings(constraints.message.transactions@)) {
                exists|s: SubmissionView|
                    {
                        &&& s.block == constraints.message.block
                        &&& s.constraints == Some(constraints)
                        &&& are_bundles_of(s.bundles, constraints)
                        &&& s.sent_count == 0
                        &&& #[trigger] is_next_send(step, s)
                    }
            } else {
                step matches SubmitStep::Respond(Err(e)) && is_error(
                    e,
                    INVALID_PARAMS,
                    "invalid constraints"@,
                )
            },
            None => step matches SubmitStep::Respond(Err(e)) && is_error(
                e,
                INVALID_PARAMS,
                "invalid constraints"@,
            ),
        },
{
    match parsed {
        Some(constraints) => {
            if !constraints.is_encodable() {
                return SubmitStep::Respond(Err(invalid_constraints()));
            }
            // Convert constraint to individual bundles and send to order pipeline
            let mut bundles = match constraint_to_individual_bundles(&constraints) {
                Ok(bundles) => bundles,
                Err(_) => Vec::new(),
            };
            let ghost in_order = bundles@;
            reverse(&mut bundles);
            let s = Submission {
                block: constraints.message.block,
                constraints: Some(constraints),
                bundles,
                sent_count: 0,
            };
            assert(s@.bundles =~= in_order);
            s.next_send()
        },
        None => SubmitStep::Respond(Err(invalid_constraints())),
    }
}

fn invalid_constraints() -> (error: RpcError)
    ensures
        is_error(error, INVALID_PARAMS, "invalid constraints"@),
{
    RpcError { code: INVALID_PARAMS, message: String::from_str("invalid constraints") }
}

/// Turns a list around.
fn reverse(bundles: &mut Vec<Bundle>)
    ensures
        final(bundles)@ == old(bundles)@.reverse(),
{
    let mut turned: Vec<Bundle> = Vec::new();
    let ghost all = bundles@;
    while bundles.len() > 0
        invariant
            turned@.len() + bundles@.len() == all.len(),
            bundles@ == all.take(bundles@.len() as int),
            forall|i: int| 0 <= i < turned@.len() ==> turned@[i] == all[all.len() - 1 - i],
        decreases bundles@.len(),
    {
        match bundles.pop() {
            Some(bundle) => {
                turned.push(bundle);
            },
            None => {},
        }
        assert(bundles@ =~= all.take(bundles@.len() as int));
    }
    assert(turned@ =~= all.reverse());
    *bundles = turned;
}

/// The answer to a submission that was sent to the pool.
pub fn answer_to(block: u64, outcome: SendOutcome) -> (answer: Result<String, RpcError>)
    ensures
        is_answer(answer, block, outcome),
        match outcome {
            SendOutcome::Sent => answer matches Ok(text) && text@ == "block_"@ + decimal(
                block as nat,
            ),
            SendOutcome::Timeout => answer matches Err(e) && e.code == -32000 && e.message@
                == "overloaded"@,
            SendOutcome::Closed => answer matches Err(e) && e.code == -32603 && e.message@
                == "internal error"@,
        },
{
    match outcome {
        SendOutcome::Sent => {
            let mut text = String::from_str("block_");
            text.append(decimal_text(block).as_str());
            Ok(text)
        },
        SendOutcome::Timeout => Err(
            RpcError { code: OVERLOADED, message: String::from_str("overloaded") },
        ),
        SendOutcome::Closed => Err(
            RpcError { code: INTERNAL_ERROR, message: String::from_str("internal error") },
        ),
    }
}

/// Whether a step is the one that follows an event: bundles are sent one after the other, whether
/// or not they arrive, and then the constraints; how that went is answered.
pub open spec fn is_submit_step(
    step: SubmitStep,
    s: SubmissionView,
    event: SubmitEvent,
) -> bool {
    match (s.constraints, event) {
        (Some(_), SubmitEvent::BundleSent { ok }) => is_next_send(
            step,
            SubmissionView {
                sent_count: s.sent_count + if ok {
                    1int
                } else {
                    0int
                },
                ..s
            },
        ),
        (None, SubmitEvent::ConstraintsSent(outcome)) => {
            &&& step matches SubmitStep::Respond(answer)
            &&& is_answer(answer, s.block, outcome)
        },
        _ => step matches SubmitStep::Unexpected(same) && same@ == s && same.wf(),
    }
}

impl Submission {
    /// No more bundles were sent than there is room to count.
    pub closed spec fn wf(&self) -> bool {
        self.constraints is Some ==> self.sent_count + self.bundles@.len() < usize::MAX
    }

    /// How many bundles were sent.
    pub fn sent_count(&self) -> (count: usize)
        ensures
            count == self@.sent_count,
    {
        self.sent_count
    }

    /// Takes how the last action went.
    pub fn advance(self, event: SubmitEvent) -> (step: SubmitStep)
        requires
            self.wf(),
        ensures
            is_submit_step(step, self@, event),
    {
        match event {
            SubmitEvent::BundleSent { ok } => match self.constraints {
                Some(_) => {
                    let mut s = self;
                    if ok {
                        s.sent_count = s.sent_count + 1;
                    }
                    s.next_send()
                },
                None => SubmitStep::Unexpected(self),
            },
            SubmitEvent::ConstraintsSent(outcome) => match self.constraints {
                Some(_) => SubmitStep::Unexpected(self),
                None => SubmitStep::Respond(answer_to(self.block, outcome)),
            },
        }
    }

    fn next_send(self) -> (step: SubmitStep)
        requires
            self.constraints is Some,
            self.sent_count + self.bundles@.len() <= usize::MAX,
        ensures
            is_next_send(step, self@),
    {
        let mut s = self;
        match s.bundles.pop() {
            Some(bundle) => {
                assert(s@.bundles =~= self@.bundles.drop_first());
                SubmitStep::Perform(s, SubmitAction::SendBundle(bundle))
            },
            None => {
                let constraints = s.constraints;
                s.constraints = None;
                match constraints {
                    // Always send to constraint pipeline for fallback
                    Some(constraints) => SubmitStep::Perform(
                        s,
                        SubmitAction::SendConstraints(constraints),
                    ),
                    None => SubmitStep::Unexpected(s),
                }
            },
        }
    }
}

/// Whether steps lead through the bundles of a submission, which arrive or do not: the first one
/// takes the first bundle up, and each other one follows the end of the one before it.
pub open spec fn leads_through_bundles(
    steps: Seq<SubmitStep>,
    s: SubmissionView,
    arrived: Seq<bool>,
) -> bool {
    &&& steps.len() == s.bundles.len() + 1
    &&& arrived.len() == s.bundles.len()
    &&& is_next_send(steps[0], s)
    &&& forall|i: int|
        0 <= i < arrived.len() ==> #[trigger] follows(steps[i], arrived[i], steps[i + 1])
}

/// Whether a step follows the end of the one before it.
pub open spec fn follows(before: SubmitStep, ok: bool, after: SubmitStep) -> bool {
    before matches SubmitStep::Perform(left, _) && is_submit_step(
        after,
        left@,
        SubmitEvent::BundleSent { ok },
    )
}

/// Constraints are always sent to the pool for fallback: the bundles of a submission are sent in
/// order and, whether or not they arrived, its constraints after them.
pub proof fn constraints_are_always_sent(
    steps: Seq<SubmitStep>,
    s: SubmissionView,
    arrived: Seq<bool>,
)
    requires
        s.constraints is Some,
        leads_through_bundles(steps, s, arrived),
    ensures
        forall|i: int|
            0 <= i < s.bundles.len() ==> ((#[trigger] steps[i]) matches SubmitStep::Perform(
                _,
                SubmitAction::SendBundle(bundle),
            ) && bundle == s.bundles[i]),
        steps.last() matches SubmitStep::Perform(_, SubmitAction::SendConstraints(constraints))
            && constraints == s.constraints->0,
{
    let n = s.bundles.len() as int;
    assert forall|i: int| 0 <= i < n implies (#[trigger] steps[i]) matches SubmitStep::Perform(
        _,
        SubmitAction::SendBundle(bundle),
    ) && bundle == s.bundles[i] by {
        lemma_send_at(steps, s, arrived, i);
    }
    lemma_send_at(steps, s, arrived, n);
}

/// The step at an index takes up what is left after as many bundles.
proof fn lemma_send_at(
    steps: Seq<SubmitStep>,
    s: SubmissionView,
    arrived: Seq<bool>,
    i: int,
) -> (left: SubmissionView)
    requires
        s.constraints is Some,
        leads_through_bundles(steps, s, arrived),
        0 <= i <= s.bundles.len(),
    ensures
        is_next_send(steps[i], left),
        left.constraints == s.constraints,
        left.bundles == s.bundles.skip(i),
    decreases i,
{
    if i == 0 {
        assert(s.bundles.skip(0) =~= s.bundles);
        s
    } else {
        let before = lemma_send_at(steps, s, arrived, i - 1);
        assert(follows(steps[i - 1], arrived[i - 1], steps[i - 1 + 1]));
        let rest = steps[i - 1]->Perform_0@;
        assert(s.bundles.skip(i) =~= s.bundles.skip(i - 1).drop_first());
        SubmissionView {
            sent_count: rest.sent_count + if arrived[i - 1] {
                1int
            } else {
                0int
            },
            ..rest
        }
    }
}

/// How many of the bundles arrived.
pub open spec fn arrivals(arrived: Seq<bool>) -> int
    decreases arrived.len(),
{
    if arrived.len() == 0 {
        0
    } else {
        arrivals(arrived.drop_last()) + if arrived.last() {
            1int
        } else {
            0int
        }
    }
}

/// The bundles that arrived are counted, and those that did not are not: when the constraints are
/// sent, the count is as many more as arrived.
pub proof fn arrived_bundles_are_counted(
    steps: Seq<SubmitStep>,
    s: SubmissionView,
    arrived: Seq<bool>,
)
    requires
        s.constraints is Some,
        leads_through_bundles(steps, s, arrived),
    ensures
        steps.last() matches SubmitStep::Perform(left, _) && left@.sent_count == s.sent_count
            + arrivals(arrived) && left@.block == s.block,
{
    let n = s.bundles.len() as int;
    let left = lemma_counted_at(steps, s, arrived, n);
    assert(arrived.take(n) =~= arrived);
}

proof fn lemma_counted_at(
    steps: Seq<SubmitStep>,
    s: SubmissionView,
    arrived: Seq<bool>,
    i: int,
) -> (left: SubmissionView)
    requires
        s.constraints is Some,
        leads_through_bundles(steps, s, arrived),
        0 <= i <= s.bundles.len(),
    ensures
        is_next_send(steps[i], left),
        left.constraints == s.constraints,
        left.bundles == s.bundles.skip(i),
        left.block == s.block,
        left.sent_count == s.sent_count + arrivals(arrived.take(i)),
    decreases i,
{
    if i == 0 {
        assert(s.bundles.skip(0) =~= s.bundles);
        assert(arrived.take(0) =~= Seq::empty());
        s
    } else {
        let before = lemma_counted_at(steps, s, arrived, i - 1);
        assert(follows(steps[i - 1], arrived[i - 1], steps[i - 1 + 1]));
        let rest = steps[i - 1]->Perform_0@;
        assert(s.bundles.skip(i) =~= s.bundles.skip(i - 1).drop_first());
        assert(arrived.take(i).drop_last() =~= arrived.take(i - 1));
        SubmissionView {
            sent_count: rest.sent_count + if arrived[i - 1] {
                1int
            } else {
                0int
            },
            ..rest
        }
    }
}

/// The bundles of constraints are one for each transaction, in order, each with that transaction
/// alone and for the constraints' block; none where a transaction cannot be decoded.
pub proof fn bundles_bring_every_transaction(bundles: Seq<Bundle>, constraints: Constraints, i: int)
    requires
        are_bundles_of(bundles, constraints),
        0 <= i < constraints.message.transactions@.len(),
    ensures
        ({
            let transactions = constraints.message.transactions@;
            let readable = forall|k: int|
                0 <= k < transactions.len() ==> enveloped_transaction(
                    (#[trigger] transactions[k])@,
                ) is Some;
            &&& !readable ==> bundles.len() == 0
            &&& readable ==> {
                &&& bundles.len() == transactions.len()
                &&& bundles[i].block == Some(constraints.message.block)
                &&& bundles[i].hash@ == keccak256_of(
                    ssz_constraints(constraints.message.block, byte_strings(transactions)),
                )
                &&& bundles[i].txs@.len() == 1
                &&& enveloped_transaction(transactions[i]@) == Some(
                    (bundles[i].txs@[0].hash@, bundles[i].txs@[0].rlp@),
                )
                &&& bundles[i].reverting_tx_hashes@.len() == 0
                &&& bundles[i].dropping_tx_hashes@.len() == 0
            }
        }),
{
    let transactions = constraints.message.transactions@;
    let encoded = byte_strings(transactions);
    if forall|k: int|
        0 <= k < transactions.len() ==> enveloped_transaction(
            (#[trigger] transactions[k])@,
        ) is Some {
        assert forall|k: int| 0 <= k < encoded.len() implies enveloped_transaction(
            #[trigger] encoded[k],
        ) is Some by {
            assert(encoded[k] == transactions[k]@);
        }
        assert(first_decodable(encoded, encoded.len() as int));
        assert(encoded[i] == transactions[i]@);
        assert(is_constraint_bundle(
            bundles[i],
            Some(constraints.message.block),
            keccak256_of(ssz_constraints(constraints.message.block, encoded)),
            enveloped_transaction(encoded[i])->0,
        ));
    } else {
        let k = choose|k: int|
            0 <= k < transactions.len() && enveloped_transaction(
                (#[trigger] transactions[k])@,
            ) is None;
        assert(encoded[k] == transactions[k]@);
        assert(!first_decodable(encoded, encoded.len() as int));
    }
}

/// What is sent next is the first bundle that is left, and the constraints once none is; the
/// submission then goes on with what is left.
pub proof fn next_send_takes_the_first(step: SubmitStep, s: SubmissionView)
    requires
        is_next_send(step, s),
    ensures
        s.bundles.len() > 0 ==> (step matches SubmitStep::Perform(
            left,
            SubmitAction::SendBundle(bundle),
        ) && bundle == s.bundles[0] && left@.bundles == s.bundles.skip(1) && left@.constraints
            == s.constraints),
        s.bundles.len() == 0 ==> (step matches SubmitStep::Perform(
            left,
            SubmitAction::SendConstraints(constraints),
        ) && s.constraints == Some(constraints) && left@.constraints is None),
{
    if s.bundles.len() > 0 {
        assert(s.bundles.drop_first() =~= s.bundles.skip(1));
    }
}

/// A submission is answered by how its constraints were sent: with the block that they are for, or
/// with the error that says why not. Until they were sent, bundles that arrived are counted and the
/// next one follows.
pub proof fn submission_is_answered_by_its_outcome(
    step: SubmitStep,
    s: SubmissionView,
    event: SubmitEvent,
)
    requires
        is_submit_step(step, s, event),
    ensures
        s.constraints is None ==> match event {
            SubmitEvent::ConstraintsSent(SendOutcome::Sent) => {
                &&& step matches SubmitStep::Respond(Ok(text))
                &&& text@ == "block_"@ + decimal(s.block as nat)
            },
            SubmitEvent::ConstraintsSent(SendOutcome::Timeout) => {
                &&& step matches SubmitStep::Respond(Err(e))
                &&& e.code == -32000
                &&& e.message@ == "overloaded"@
            },
            SubmitEvent::ConstraintsSent(SendOutcome::Closed) => {
                &&& step matches SubmitStep::Respond(Err(e))
                &&& e.code == -32603
                &&& e.message@ == "internal error"@
            },
            SubmitEvent::BundleSent { .. } => step matches SubmitStep::Unexpected(same) && same@
                == s,
        },
        s.constraints is Some ==> match event {
            SubmitEvent::BundleSent { ok } => {
                &&& step matches SubmitStep::Perform(left, _)
                &&& left@.block == s.block
                &&& left@.sent_count == s.sent_count + if ok {
                    1int
                } else {
                    0int
                }
            },
            SubmitEvent::ConstraintsSent(_) => step matches SubmitStep::Unexpected(same) && same@
                == s,
        },
{
}

} // verus!
