//! What a poller does with each thing that it is told, told by what it knew and what it was told.

use crate::constraint_input::constraints_poller::{
    poll_step, PollAction, PollActionView, PollCycle, PollEvent, PollState, PollWarning, PollerView,
};
use crate::constraint_input::messages::SignedConstraints;
use vstd::prelude::*;

verus! {

/// The slot that a cycle is asking for: its current slot, or the one after it.
pub open spec fn asked_slot(cycle: PollCycle) -> int {
    cycle.current_slot + if cycle.at_next {
        1int
    } else {
        0int
    }
}

/// Whether a cycle goes on as it should once a slot was dealt with: the next slot is asked for,
/// where it was not its turn yet and it was not polled; else the poller waits, for less time where
/// constraints were found in the cycle.
pub open spec fn cycle_goes_on(
    poller: PollerView,
    action: PollActionView,
    cycle: PollCycle,
    found: bool,
) -> bool {
    let next = (cycle.current_slot + 1) as u64;
    if !cycle.at_next && !poller.polled.contains(next) {
        &&& action == (PollActionView::Request { slot: next })
        &&& poller.state == PollState::Requesting(
            PollCycle { current_slot: cycle.current_slot, at_next: true, any_polled: found },
        )
    } else {
        &&& action == (PollActionView::Sleep {
            millis: if found {
                200
            } else {
                500
            },
        })
        &&& poller.state is Idle
    }
}

/// Where the server's first message is for the slot that was asked for, that message is handed on
/// as it is: its slot and all its constraints, in order. Nothing is marked yet.
pub proof fn answer_is_handed_on_whole(
    poller: PollerView,
    cycle: PollCycle,
    answer: Vec<SignedConstraints>,
)
    requires
        poller.state == PollState::Requesting(cycle),
        cycle.current_slot < u64::MAX,
        answer@.len() > 0,
        answer@[0].message.slot == asked_slot(cycle),
    ensures
        poll_step(poller, PollEvent::Answered(answer)) matches Some(step) && {
            &&& step.action matches PollActionView::Forward { message }
            &&& message.slot == answer@[0].message.slot
            &&& message.payloads.len() == answer@[0].message.constraints@.len()
            &&& forall|i: int|
                0 <= i < message.payloads.len() ==> #[trigger] message.payloads[i]
                    == answer@[0].message.constraints@[i].payload@
            &&& step.poller.polled == poller.polled
            &&& step.poller.last_cleanup_slot == poller.last_cleanup_slot
            &&& step.poller.state == PollState::Forwarding(cycle)
            &&& step.warning is None
        },
{
}

/// A message for another slot than the one that was asked for is not handed on. The slot that was
/// asked for counts as polled, which is worth a warning that names both, and the cycle goes on.
pub proof fn answer_for_another_slot_is_dropped(
    poller: PollerView,
    cycle: PollCycle,
    answer: Vec<SignedConstraints>,
)
    requires
        poller.state == PollState::Requesting(cycle),
        cycle.current_slot < u64::MAX,
        answer@.len() > 0,
        answer@[0].message.slot != asked_slot(cycle),
    ensures
        poll_step(poller, PollEvent::Answered(answer)) matches Some(step) && {
            &&& step.poller.polled == poller.polled.insert(asked_slot(cycle) as u64)
            &&& step.poller.last_cleanup_slot == poller.last_cleanup_slot
            &&& cycle_goes_on(step.poller, step.action, cycle, cycle.any_polled)
            &&& step.warning matches Some(
                PollWarning::SlotMismatch { requested_slot, returned_slot, constraint_count },
            )
            &&& requested_slot == asked_slot(cycle)
            &&& returned_slot == answer@[0].message.slot
            &&& constraint_count == answer@[0].message.constraints.len()
        },
{
    let constraints = answer@[0].message.constraints;
    assert(constraints.len() == constraints@.len());
}

/// A slot without constraints, and one that the server could not be asked for, is not marked, and
/// the cycle goes on. It is worth a warning where it is the current slot.
pub proof fn slot_without_answer_stays_open(
    poller: PollerView,
    cycle: PollCycle,
    empty: Vec<SignedConstraints>,
)
    requires
        poller.state == PollState::Requesting(cycle),
        cycle.current_slot < u64::MAX,
        empty@.len() == 0,
    ensures
        poll_step(poller, PollEvent::Answered(empty)) matches Some(step) && {
            &&& step.poller.polled == poller.polled
            &&& step.poller.last_cleanup_slot == poller.last_cleanup_slot
            &&& cycle_goes_on(step.poller, step.action, cycle, cycle.any_polled)
            &&& step.warning == if cycle.at_next {
                None
            } else {
                Some(PollWarning::NoConstraints { slot: cycle.current_slot })
            }
        },
        poll_step(poller, PollEvent::RequestFailed) matches Some(step) && {
            &&& step.poller.polled == poller.polled
            &&& step.poller.last_cleanup_slot == poller.last_cleanup_slot
            &&& cycle_goes_on(step.poller, step.action, cycle, cycle.any_polled)
            &&& step.warning == if cycle.at_next {
                None
            } else {
                Some(PollWarning::RequestFailed { slot: cycle.current_slot })
            }
        },
{
}

/// Once constraints were handed on, well or not, their slot counts as polled, and the cycle as one
/// that found constraints. Where they did not arrive, that is worth a warning.
pub proof fn handed_slot_is_polled(poller: PollerView, cycle: PollCycle, ok: bool)
    requires
        poller.state == PollState::Forwarding(cycle),
        cycle.current_slot < u64::MAX,
    ensures
        poll_step(poller, PollEvent::Handed { ok }) matches Some(step) && {
            &&& step.poller.polled == poller.polled.insert(asked_slot(cycle) as u64)
            &&& step.poller.last_cleanup_slot == poller.last_cleanup_slot
            &&& cycle_goes_on(step.poller, step.action, cycle, true)
            &&& step.warning == if ok {
                None
            } else {
                Some(PollWarning::NotHanded { slot: asked_slot(cycle) as u64 })
            }
        },
{
}

/// A cycle begins with the current slot, with the next one where the current one was polled, and
/// with a pause where both were. Where the last clean-up was more than five slots ago, the slots
/// that are more than two slots past are forgotten first, and no others.
pub proof fn cycle_begins(poller: PollerView, current_slot: u64, slot: u64)
    requires
        poller.state is Idle,
        current_slot < u64::MAX,
    ensures
        poll_step(poller, PollEvent::Woken { current_slot }) matches Some(step) && {
            let due = current_slot > poller.last_cleanup_slot + 5;
            let next = (current_slot + 1) as u64;
            &&& step.poller.polled.contains(slot) <==> poller.polled.contains(slot) && (due
                ==> slot + 2 >= current_slot)
            &&& step.poller.last_cleanup_slot == if due {
                current_slot
            } else {
                poller.last_cleanup_slot
            }
            &&& step.warning is None
            &&& if !poller.polled.contains(current_slot) {
                &&& step.action == (PollActionView::Request { slot: current_slot })
                &&& step.poller.state == PollState::Requesting(
                    PollCycle { current_slot, at_next: false, any_polled: false },
                )
            } else if !poller.polled.contains(next) {
                &&& step.action == (PollActionView::Request { slot: next })
                &&& step.poller.state == PollState::Requesting(
                    PollCycle { current_slot, at_next: true, any_polled: false },
                )
            } else {
                &&& step.action == (PollActionView::Sleep { millis: 500 })
                &&& step.poller.state is Idle
            }
        },
{
}

/// A poller takes what it is waiting for, and nothing else.
pub proof fn only_the_awaited_event_is_taken(poller: PollerView, event: PollEvent)
    ensures
        poll_step(poller, event) is Some <==> match event {
            PollEvent::Woken { .. } => poller.state is Idle,
            PollEvent::Answered(_) => poller.state is Requesting,
            PollEvent::RequestFailed => poller.state is Requesting,
            PollEvent::Handed { .. } => poller.state is Forwarding,
        },
{
}

/// An action is seen as what it asks for: the slot, the message or the pause.
pub proof fn poll_action_view_tells_the_action(action: PollAction)
    ensures
        match action {
            PollAction::Request { slot } => action@ == (PollActionView::Request { slot }),
            PollAction::Forward { message } => action@ matches PollActionView::Forward {
                message: seen,
            } && seen == message@,
            PollAction::Sleep { millis } => action@ == (PollActionView::Sleep { millis }),
        },
{
}

} // verus!
