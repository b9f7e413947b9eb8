//! Polling a constraints server for the constraints of the current and the next slot.

use crate::constraint_input::messages::{
    ConstraintsMessage, ConstraintsMessageView, SignedConstraints,
};
use crate::primitives::clock::{system_time, unix_seconds};
use std::collections::HashSet;
use vstd::prelude::*;

verus! {

broadcast use vstd::std_specs::hash::group_hash_axioms;

/// Seconds in a slot
pub const SECONDS_PER_SLOT: u64 = 12;

/// Slots between clean-ups of what is remembered of polled slots
pub const CLEANUP_INTERVAL: u64 = 5;

/// Past slots that a clean-up leaves remembered
pub const KEPT_PAST_SLOTS: u64 = 2;

/// Milliseconds before the next cycle, where constraints were found
pub const BACKOFF_AFTER_CONSTRAINTS: u64 = 200;

/// Milliseconds before the next cycle, where none were found
pub const BACKOFF_WITHOUT_CONSTRAINTS: u64 = 500;

/// The slot at the given time, both times in seconds since the Unix epoch.
pub fn slot_at(genesis_timestamp: u64, now: u64) -> (slot: u64)
    requires
        genesis_timestamp <= now,
    ensures
        slot == (now - genesis_timestamp) / 12,
        slot <= u64::MAX / 12,
{
    (now - genesis_timestamp) / SECONDS_PER_SLOT
}

/// The slot at a time that may not be known. There is none before genesis.
pub fn slot_at_time(genesis_timestamp: u64, now: Option<u64>) -> (slot: Option<u64>)
    ensures
        match now {
            Some(now) => if genesis_timestamp <= now {
                slot == Some(((now - genesis_timestamp) / 12) as u64)
            } else {
                slot is None
            },
            None => slot is None,
        },
        slot matches Some(s) ==> s <= u64::MAX / 12,
{
    match now {
        Some(now) => if genesis_timestamp <= now {
            Some(slot_at(genesis_timestamp, now))
        } else {
            None
        },
        None => None,
    }
}

/// Calculate the current slot based on system time. There is none before genesis.
pub fn get_current_slot(genesis_timestamp: u64) -> (slot: Option<u64>)
    ensures
        slot matches Some(s) ==> s <= (u64::MAX - genesis_timestamp) / 12,
{
    let now = unix_seconds(system_time());
    slot_at_time(genesis_timestamp, now)
}

/// Get slots we should poll for constraints.
/// We poll both the current slot AND the next slot because:
/// - If we're in slot N-1 and building for slot N, we need slot N constraints
/// - If we're already in slot N and building for slot N, we also need slot N constraints
/// - Polling both ensures we don't miss constraints due to timing edge cases
pub fn get_slots_to_poll(genesis_timestamp: u64) -> (slots: Option<(u64, u64)>)
    ensures
        slots matches Some((current, next)) ==> next == current + 1 && current <= (u64::MAX
            - genesis_timestamp) / 12,
{
    current_and_next(get_current_slot(genesis_timestamp))
}

/// The current slot and the next one, where there is a current one.
pub fn current_and_next(current_slot: Option<u64>) -> (slots: Option<(u64, u64)>)
    requires
        current_slot matches Some(current) ==> current < u64::MAX,
    ensures
        match current_slot {
            Some(current) => slots == Some((current, (current + 1) as u64)),
            None => slots is None,
        },
{
    match current_slot {
        Some(current_slot) => Some((current_slot, current_slot + 1)),
        None => None,
    }
}

/// Whether a polled slot is remembered by a clean-up that keeps the slots from `first` on.
pub fn is_kept(slot: u64, first: u64) -> (kept: bool)
    ensures
        kept == (slot >= first),
{
    slot >= first
}

/// The slots from `first` on.
pub open spec fn slots_from(slots: Set<u64>, first: u64) -> Set<u64> {
    slots.filter(|slot: u64| slot >= first)
}

/// `HashSet::retain` with `is_kept`: the slots before `first` are removed, the others stay.
#[verifier::external_body]
fn retain_slots(slots: &mut HashSet<u64>, first: u64)
    ensures
        final(slots)@ == slots_from(old(slots)@, first),
{
    slots.retain(|&slot| is_kept(slot, first))
}

/// What a poller is waiting for.
#[derive(Debug, Clone, Copy)]
pub enum PollState {
    /// The next cycle
    Idle,
    /// The server's answer for a slot of this cycle
    Requesting(PollCycle),
    /// The end of handing constraints on
    Forwarding(PollCycle),
}

/// A round of requests.
#[derive(Debug, Clone, Copy)]
pub struct PollCycle {
    pub current_slot: u64,
    /// Whether it is the next slot's turn
    pub at_next: bool,
    /// Whether constraints were found in this round
    pub any_polled: bool,
}

impl PollCycle {
    /// The slot whose turn it is.
    pub open spec fn turn(&self) -> u64 {
        if self.at_next {
            (self.current_slot + 1) as u64
        } else {
            self.current_slot
        }
    }

    fn slot(&self) -> (slot: u64)
        requires
            self.current_slot < u64::MAX,
        ensures
            slot == self.turn(),
    {
        if self.at_next {
            self.current_slot + 1
        } else {
            self.current_slot
        }
    }
}

/// What a poller is told.
#[derive(Debug)]
pub enum PollEvent {
    /// A cycle begins in this slot.
    Woken { current_slot: u64 },
    /// The server answered with these constraints.
    Answered(Vec<SignedConstraints>),
    /// The server could not be asked.
    RequestFailed,
    /// Handing constraints on has ended, well or not.
    Handed { ok: bool },
}

impl PollEvent {
    /// A slot has a next one.
    pub open spec fn wf(&self) -> bool {
        self matches PollEvent::Woken { current_slot } ==> current_slot < u64::MAX
    }
}

/// What a poller does next.
#[derive(Debug)]
pub enum PollAction {
    /// Ask the server for the constraints of a slot.
    Request { slot: u64 },
    /// Hand constraints on to the pool.
    Forward { message: ConstraintsMessage },
    /// Wait before the next cycle.
    Sleep { millis: u64 },
}

/// What a `PollAction` asks for.
pub enum PollActionView {
    Request { slot: u64 },
    Forward { message: ConstraintsMessageView },
    Sleep { millis: u64 },
}

impl View for PollAction {
    type V = PollActionView;

    open spec fn view(&self) -> PollActionView {
        match self {
            PollAction::Request { slot } => PollActionView::Request { slot: *slot },
            PollAction::Forward { message } => PollActionView::Forward { message: message@ },
            PollAction::Sleep { millis } => PollActionView::Sleep { millis: *millis },
        }
    }
}

/// What is worth a warning.
#[derive(Debug, Clone, Copy, PartialEq, Eq, Structural)]
pub enum PollWarning {
    /// Server returned constraints for different slot than requested
    SlotMismatch { requested_slot: u64, returned_slot: u64, constraint_count: usize },
    /// Failed to send constraint to constraint pipeline
    NotHanded { slot: u64 },
    /// No constraints found for current slot
    NoConstraints { slot: u64 },
    /// Failed to get constraints from server
    RequestFailed { slot: u64 },
}

/// Polls a constraints server.
#[derive(Debug)]
pub struct ConstraintsPoller {
    /// Track slots we've successfully polled to avoid re-polling
    polled_slots: HashSet<u64>,
    last_cleanup_slot: u64,
    state: PollState,
}

/// What a `ConstraintsPoller` remembers, and what it is waiting for.
#[verifier::ext_equal]
pub struct PollerView {
    pub polled: Set<u64>,
    pub last_cleanup_slot: u64,
    pub state: PollState,
}

impl View for ConstraintsPoller {
    type V = PollerView;

    closed spec fn view(&self) -> PollerView {
        PollerView {
            polled: self.polled_slots@,
            last_cleanup_slot: self.last_cleanup_slot,
            state: self.state,
        }
    }
}

/// A poller after a step, what it does next, and what is worth a warning.
pub struct PollStep {
    pub poller: PollerView,
    pub action: PollActionView,
    pub warning: Option<PollWarning>,
}

/// The turn passes to the given slot of a cycle: it is asked for where it was not polled yet, else
/// the next one is; after both, the poller waits.
pub open spec fn take_turn(
    poller: PollerView,
    cycle: PollCycle,
    warning: Option<PollWarning>,
) -> PollStep
{
    let next = PollCycle { at_next: true, ..cycle };
    if !poller.polled.contains(cycle.turn()) {
        request(poller, cycle, warning)
    } else if !poller.polled.contains(next.turn()) {
        request(poller, next, warning)
    } else {
        rest(poller, cycle, warning)
    }
}

/// The slot whose turn it is is asked for.
pub open spec fn request(
    poller: PollerView,
    cycle: PollCycle,
    warning: Option<PollWarning>,
) -> PollStep {
    PollStep {
        poller: PollerView { state: PollState::Requesting(cycle), ..poller },
        action: PollActionView::Request { slot: cycle.turn() },
        warning,
    }
}

/// A cycle is over: the next one comes sooner where constraints were found.
pub open spec fn rest(
    poller: PollerView,
    cycle: PollCycle,
    warning: Option<PollWarning>,
) -> PollStep {
    PollStep {
        poller: PollerView { state: PollState::Idle, ..poller },
        action: PollActionView::Sleep {
            millis: if cycle.any_polled {
                BACKOFF_AFTER_CONSTRAINTS
            } else {
                BACKOFF_WITHOUT_CONSTRAINTS
            },
        },
        warning,
    }
}

/// The slot whose turn it was is dealt with.
pub open spec fn pass_turn(
    poller: PollerView,
    cycle: PollCycle,
    warning: Option<PollWarning>,
) -> PollStep {
    if cycle.at_next {
        rest(poller, cycle, warning)
    } else {
        take_turn(poller, PollCycle { at_next: true, ..cycle }, warning)
    }
}

/// What is remembered when a cycle begins: a clean-up is due some slots after the last one, and
/// forgets the slots that are long past.
pub open spec fn cleaned_up(poller: PollerView, current_slot: u64) -> PollerView {
    if current_slot > poller.last_cleanup_slot + CLEANUP_INTERVAL {
        let first = if current_slot >= KEPT_PAST_SLOTS {
            (current_slot - KEPT_PAST_SLOTS) as u64
        } else {
            0
        };
        PollerView {
            polled: slots_from(poller.polled, first),
            last_cleanup_slot: current_slot,
            ..poller
        }
    } else {
        poller
    }
}

/// A poller that remembers a slot as polled.
pub open spec fn marked(poller: PollerView, slot: u64) -> PollerView {
    PollerView { polled: poller.polled.insert(slot), ..poller }
}

/// What a poller does when it is told something; nothing, if it was not waiting for that.
pub open spec fn poll_step(poller: PollerView, event: PollEvent) -> Option<PollStep> {
    match (poller.state, event) {
        (PollState::Idle, PollEvent::Woken { current_slot }) => Some(
            take_turn(
                cleaned_up(poller, current_slot),
                PollCycle { current_slot, at_next: false, any_polled: false },
                None,
            ),
        ),
        (PollState::Requesting(cycle), PollEvent::Answered(answer)) => {
            let slot = cycle.turn();
            if answer@.len() == 0 {
                Some(
                    pass_turn(
                        poller,
                        cycle,
                        if cycle.at_next {
                            None
                        } else {
                            Some(PollWarning::NoConstraints { slot })
                        },
                    ),
                )
            } else {
                let message = answer@[0].message;
                if message.slot != slot {
                    Some(
                        pass_turn(
                            marked(poller, slot),
                            cycle,
                            Some(
                                PollWarning::SlotMismatch {
                                    requested_slot: slot,
                                    returned_slot: message.slot,
                                    constraint_count: message.constraints@.len() as usize,
                                },
                            ),
                        ),
                    )
                } else {
                    Some(
                        PollStep {
                            poller: PollerView { state: PollState::Forwarding(cycle), ..poller },
                            action: PollActionView::Forward { message: message@ },
                            warning: None,
                        },
                    )
                }
            }
        },
        (PollState::Requesting(cycle), PollEvent::RequestFailed) => Some(
            pass_turn(
                poller,
                cycle,
                if cycle.at_next {
                    None
                } else {
                    Some(PollWarning::RequestFailed { slot: cycle.turn() })
                },
            ),
        ),
        (PollState::Forwarding(cycle), PollEvent::Handed { ok }) => Some(
            pass_turn(
                marked(poller, cycle.turn()),
                PollCycle { any_polled: true, ..cycle },
                if ok {
                    None
                } else {
                    Some(PollWarning::NotHanded { slot: cycle.turn() })
                },
            ),
        ),
        _ => None,
    }
}

impl ConstraintsPoller {
    /// The slot of a cycle has a next one.
    pub closed spec fn wf(&self) -> bool {
        match self.state {
            PollState::Idle => true,
            PollState::Requesting(cycle) => cycle.current_slot < u64::MAX,
            PollState::Forwarding(cycle) => cycle.current_slot < u64::MAX,
        }
    }

    /// A poller that has polled nothing yet.
    pub fn new() -> (poller: Self)
        ensures
            poller.wf(),
            poller@ == fresh_poller(),
    {
        ConstraintsPoller {
            polled_slots: HashSet::new(),
            last_cleanup_slot: 0,
            state: PollState::Idle,
        }
    }

    /// Takes an event, and says what to do next and what is worth a warning.
    pub fn advance(&mut self, event: PollEvent) -> (next: Option<
        (PollAction, Option<PollWarning>),
    >)
        requires
            old(self).wf(),
            event.wf(),
        ensures
            final(self).wf(),
            match poll_step(old(self)@, event) {
                Some(step) => {
                    &&& final(self)@ == step.poller
                    &&& next matches Some((action, warning))
                    &&& action@ == step.action
                    &&& warning == step.warning
                },
                None => next is None && final(self)@ == old(self)@,
            },
            next matches Some((PollAction::Forward { message }, _)) ==> (
            event matches PollEvent::Answered(answer) && {
                &&& answer@.len() > 0
                &&& message.slot == answer@[0].message.slot
                &&& message.constraints@.len() == answer@[0].message.constraints@.len()
                &&& forall|i: int|
                    0 <= i < message.constraints@.len() ==> (
                    #[trigger] message.constraints@[i]).payload@
                        == answer@[0].message.constraints@[i].payload@
            }),
    {
        match (self.state, event) {
            (PollState::Idle, PollEvent::Woken { current_slot }) => {
                // Clean up old polled slots periodically
                if current_slot > self.last_cleanup_slot && current_slot - self.last_cleanup_slot
                    > CLEANUP_INTERVAL {
                    let first: u64 = if current_slot >= KEPT_PAST_SLOTS {
                        current_slot - KEPT_PAST_SLOTS
                    } else {
                        0
                    };
                    retain_slots(&mut self.polled_slots, first);
                    self.last_cleanup_slot = current_slot;
                }
                let cycle = PollCycle { current_slot, at_next: false, any_polled: false };
                Some((self.take_turn(cycle), None))
            },
            (PollState::Requesting(cycle), PollEvent::Answered(answer)) => {
                let slot = cycle.slot();
                if answer.len() == 0 {
                    // No constraints for this slot (might not exist yet for next_slot)
                    let warning = if cycle.at_next {
                        None
                    } else {
                        Some(PollWarning::NoConstraints { slot })
                    };
                    return Some((self.pass_turn(cycle), warning));
                }
                // We assume that there is only one constraint per slot
                let message = &answer[0].message;
                // Validate that returned constraints match the requested slot
                if message.slot != slot {
                    let warning = PollWarning::SlotMismatch {
                        requested_slot: slot,
                        returned_slot: message.slot,
                        constraint_count: message.constraints.len(),
                    };
                    // Mark as polled anyway to avoid repeated requests
                    self.polled_slots.insert(slot);
                    return Some((self.pass_turn(cycle), Some(warning)));
                }
                // Send to constraint pipeline
                self.state = PollState::Forwarding(cycle);
                Some((PollAction::Forward { message: message.duplicate() }, None))
            },
            (PollState::Requesting(cycle), PollEvent::RequestFailed) => {
                let warning = if cycle.at_next {
                    None
                } else {
                    Some(PollWarning::RequestFailed { slot: cycle.slot() })
                };
                Some((self.pass_turn(cycle), warning))
            },
            (PollState::Forwarding(cycle), PollEvent::Handed { ok }) => {
                let slot = cycle.slot();
                // Mark this slot as successfully polled
                self.polled_slots.insert(slot);
                let warning = if ok {
                    None
                } else {
                    Some(PollWarning::NotHanded { slot })
                };
                let cycle = PollCycle {
                    current_slot: cycle.current_slot,
                    at_next: cycle.at_next,
                    any_polled: true,
                };
                Some((self.pass_turn(cycle), warning))
            },
            _ => None,
        }
    }

    fn take_turn(&mut self, cycle: PollCycle) -> (action: PollAction)
        requires
            cycle.current_slot < u64::MAX,
        ensures
            final(self).wf(),
            forall|warning: Option<PollWarning>| #[trigger]
                take_turn(old(self)@, cycle, warning) == (PollStep {
                    poller: final(self)@,
                    action: action@,
                    warning,
                }),
    {
        let next = PollCycle {
            current_slot: cycle.current_slot,
            at_next: true,
            any_polled: cycle.any_polled,
        };
        // Skip if we already successfully polled this slot
        if !self.polled_slots.contains(&cycle.slot()) {
            self.state = PollState::Requesting(cycle);
            PollAction::Request { slot: cycle.slot() }
        } else if !self.polled_slots.contains(&next.slot()) {
            self.state = PollState::Requesting(next);
            PollAction::Request { slot: next.slot() }
        } else {
            self.rest(cycle)
        }
    }

    fn pass_turn(&mut self, cycle: PollCycle) -> (action: PollAction)
        requires
            cycle.current_slot < u64::MAX,
        ensures
            final(self).wf(),
            forall|warning: Option<PollWarning>| #[trigger]
                pass_turn(old(self)@, cycle, warning) == (PollStep {
                    poller: final(self)@,
                    action: action@,
                    warning,
                }),
    {
        if cycle.at_next {
            self.rest(cycle)
        } else {
            self.take_turn(
                PollCycle {
                    current_slot: cycle.current_slot,
                    at_next: true,
                    any_polled: cycle.any_polled,
                },
            )
        }
    }

    fn rest(&mut self, cycle: PollCycle) -> (action: PollAction)
        ensures
            final(self).wf(),
            forall|warning: Option<PollWarning>| #[trigger]
                rest(old(self)@, cycle, warning) == (PollStep {
                    poller: final(self)@,
                    action: action@,
                    warning,
                }),
    {
        // Backoff before next poll cycle
        self.state = PollState::Idle;
        if cycle.any_polled {
            PollAction::Sleep { millis: BACKOFF_AFTER_CONSTRAINTS }
        } else {
            PollAction::Sleep { millis: BACKOFF_WITHOUT_CONSTRAINTS }
        }
    }
}

impl Default for ConstraintsPoller {
    fn default() -> (poller: Self)
        ensures
            poller.wf(),
            poller@ == fresh_poller(),
    {
        Self::new()
    }
}

/// A slot that was polled is not asked for again while it is remembered.
pub proof fn polled_slot_is_not_requested(poller: PollerView, event: PollEvent, slot: u64)
    ensures
        poll_step(poller, event) matches Some(step) ==> step.action == (PollActionView::Request {
            slot,
        }) ==> !step.poller.polled.contains(slot),
{
}

/// Only constraints for the slot that was asked for are handed on.
pub proof fn forwarded_constraints_match_the_request(poller: PollerView, event: PollEvent)
    ensures
        poll_step(poller, event) matches Some(step) ==> (step.action matches PollActionView::Forward {
            message,
        } ==> poller.state matches PollState::Requesting(cycle) && message.slot == cycle.turn()),
{
}

/// A cycle tries both slots: it begins with the current one, or with the next one where the
/// current one was polled; once the current one is dealt with, the next one follows, unless it
/// was polled.
pub proof fn cycle_tries_both_slots(poller: PollerView, current_slot: u64, event: PollEvent)
    requires
        current_slot < u64::MAX,
    ensures
        poller.state is Idle ==> {
            let polled = cleaned_up(poller, current_slot).polled;
            let next_slot = (current_slot + 1) as u64;
            &&& poll_step(poller, PollEvent::Woken { current_slot }) matches Some(step)
            &&& step.action == if !polled.contains(current_slot) {
                PollActionView::Request { slot: current_slot }
            } else if !polled.contains(next_slot) {
                PollActionView::Request { slot: next_slot }
            } else {
                PollActionView::Sleep { millis: 500 }
            }
        },
        poller.state matches PollState::Requesting(cycle) && !cycle.at_next && cycle.current_slot
            == current_slot ==> (poll_step(poller, event) matches Some(step) ==> {
            let next_slot = (current_slot + 1) as u64;
            ||| step.action is Forward
            ||| step.poller.polled.contains(next_slot)
            ||| step.action == (PollActionView::Request { slot: next_slot })
        }),
        poller.state matches PollState::Forwarding(cycle) && !cycle.at_next && cycle.current_slot
            == current_slot ==> (poll_step(poller, event) matches Some(step) ==> {
            let next_slot = (current_slot + 1) as u64;
            ||| step.poller.polled.contains(next_slot)
            ||| step.action == (PollActionView::Request { slot: next_slot })
        }),
{
}

/// A slot that was polled is remembered until it is long past.
pub proof fn polled_slot_is_remembered(poller: PollerView, event: PollEvent, slot: u64)
    requires
        poller.polled.contains(slot),
        event matches PollEvent::Woken { current_slot } ==> slot + KEPT_PAST_SLOTS >= current_slot,
    ensures
        poll_step(poller, event) matches Some(step) ==> step.poller.polled.contains(slot),
{
}

/// A poller that has polled nothing yet.
pub open spec fn fresh_poller() -> PollerView {
    PollerView { polled: Set::empty(), last_cleanup_slot: 0, state: PollState::Idle }
}

/// A poller after it was told the given things, in order. What it was not waiting for changes
/// nothing.
pub open spec fn poll_run(events: Seq<PollEvent>) -> PollerView
    decreases events.len(),
{
    if events.len() == 0 {
        fresh_poller()
    } else {
        let before = poll_run(events.drop_last());
        match poll_step(before, events.last()) {
            Some(step) => step.poller,
            None => before,
        }
    }
}

/// Whether the clock does not go back, and has a next slot.
pub open spec fn clock_runs_on(events: Seq<PollEvent>) -> bool {
    &&& forall|i: int| 0 <= i < events.len() ==> (#[trigger] events[i]).wf()
    &&& forall|i: int, j: int|
        0 <= i < j < events.len() && (#[trigger] events[i]) is Woken && (
        #[trigger] events[j]) is Woken ==> events[i]->current_slot <= events[j]->current_slot
}

/// Whether the poller asked for a slot and the event at an index answers with constraints.
pub open spec fn is_answered(events: Seq<PollEvent>, i: int, slot: u64) -> bool {
    &&& 0 <= i < events.len()
    &&& poll_run(events.take(i)).state matches PollState::Requesting(cycle)
    &&& cycle.turn() == slot
    &&& events[i] matches PollEvent::Answered(answer)
    &&& answer@.len() > 0
}

/// Whether the slot of the cycle that is under way, if one is, is `clock` or a later one.
spec fn cycle_from(poller: PollerView, clock: u64) -> bool {
    match poller.state {
        PollState::Idle => true,
        PollState::Requesting(cycle) => clock <= cycle.current_slot < u64::MAX,
        PollState::Forwarding(cycle) => clock <= cycle.current_slot < u64::MAX,
    }
}

/// Whether a slot is done with: it was polled, its constraints are being handed on, or it is long
/// past; and it is not being asked for.
spec fn is_done(poller: PollerView, slot: u64, clock: u64) -> bool {
    &&& {
        ||| poller.polled.contains(slot)
        ||| poller.state matches PollState::Forwarding(cycle) && cycle.turn() == slot
        ||| slot + KEPT_PAST_SLOTS < clock
    }
    &&& poller.state matches PollState::Requesting(cycle) ==> cycle.turn() != slot
}

/// The slot that the clock shows after an event.
spec fn clock_after(poller: PollerView, clock: u64, event: PollEvent) -> u64 {
    match (poller.state, event) {
        (PollState::Idle, PollEvent::Woken { current_slot }) => current_slot,
        _ => clock,
    }
}

proof fn lemma_done_stays(poller: PollerView, clock: u64, event: PollEvent, slot: u64)
    requires
        cycle_from(poller, clock),
        is_done(poller, slot, clock),
        event.wf(),
        event matches PollEvent::Woken { current_slot } ==> clock <= current_slot,
    ensures
        poll_step(poller, event) matches Some(step) ==> {
            &&& cycle_from(step.poller, clock_after(poller, clock, event))
            &&& is_done(step.poller, slot, clock_after(poller, clock, event))
            &&& step.action != (PollActionView::Request { slot })
            &&& step.action matches PollActionView::Forward { message } ==> message.slot != slot
        },
{
}

/// The slot that the clock showed last when a cycle began.
spec fn last_clock(events: Seq<PollEvent>) -> u64
    decreases events.len(),
{
    if events.len() == 0 {
        0
    } else {
        clock_after(
            poll_run(events.drop_last()),
            last_clock(events.drop_last()),
            events.last(),
        )
    }
}

proof fn lemma_clock(events: Seq<PollEvent>, later: PollEvent)
    requires
        clock_runs_on(events.push(later)),
    ensures
        cycle_from(poll_run(events), last_clock(events)),
        later matches PollEvent::Woken { current_slot } ==> last_clock(events) <= current_slot,
    decreases events.len(),
{
    if events.len() > 0 {
        let before = events.drop_last();
        let last = events.last();
        let all = events.push(later);
        assert(all[events.len() - 1] == last);
        assert(all[events.len() as int] == later);
        assert(last.wf());
        assert forall|e: PollEvent| e == later || e == last implies #[trigger] clock_runs_on(
            before.push(e),
        ) by {
            let shorter = before.push(e);
            let n = before.len() as int;
            let at = if e == later {
                events.len() as int
            } else {
                n
            };
            assert(all[at] == e);
            assert forall|i: int| 0 <= i < shorter.len() implies (#[trigger] shorter[i]).wf() by {
                if i < n {
                    assert(all[i] == shorter[i]);
                }
            }
            assert forall|i: int, j: int|
                0 <= i < j < shorter.len() && (#[trigger] shorter[i]) is Woken && (
                #[trigger] shorter[j]) is Woken implies shorter[i]->current_slot
                <= shorter[j]->current_slot by {
                assert(all[i] == shorter[i]);
                if j < n {
                    assert(all[j] == shorter[j]);
                }
            }
        }
        lemma_clock(before, later);
        lemma_clock(before, last);
    }
}

proof fn lemma_done_after(events: Seq<PollEvent>, i: int, j: int, slot: u64)
    requires
        clock_runs_on(events),
        is_answered(events, i, slot),
        i < j <= events.len(),
    ensures
        is_done(poll_run(events.take(j)), slot, last_clock(events.take(j))),
    decreases j,
{
    let k = j - 1;
    let before = events.take(k);
    let event = events[k];
    assert(events.take(j).drop_last() =~= before);
    assert(events.take(j).last() == event);
    lemma_prefix_clock(events, k);
    if k == i {
        let cycle = poll_run(before).state->Requesting_0;
        assert(cycle.current_slot < u64::MAX);
    } else {
        lemma_done_after(events, i, k, slot);
        lemma_done_stays(poll_run(before), last_clock(before), event, slot);
    }
}

proof fn lemma_prefix_clock(events: Seq<PollEvent>, k: int)
    requires
        clock_runs_on(events),
        0 <= k < events.len(),
    ensures
        cycle_from(poll_run(events.take(k)), last_clock(events.take(k))),
        events[k].wf(),
        events[k] matches PollEvent::Woken { current_slot } ==> last_clock(events.take(k))
            <= current_slot,
{
    let before = events.take(k);
    assert(before.push(events[k]) =~= events.take(k + 1));
    let all = before.push(events[k]);
    assert forall|i: int| 0 <= i < all.len() implies (#[trigger] all[i]).wf() by {
        assert(all[i] == events[i]);
    }
    assert forall|i: int, j: int|
        0 <= i < j < all.len() && (#[trigger] all[i]) is Woken && (
        #[trigger] all[j]) is Woken implies all[i]->current_slot <= all[j]->current_slot by {
        assert(all[i] == events[i]);
        assert(all[j] == events[j]);
    }
    lemma_clock(before, events[k]);
}

/// An answer with constraints ends the polling of a slot for good, as long as the clock does not go
/// back: the slot is not asked for again, and no other message for it is handed on. So at most one
/// message for a slot is.
pub proof fn answered_slot_is_polled_once(events: Seq<PollEvent>, i: int, j: int, slot: u64)
    requires
        clock_runs_on(events),
        is_answered(events, i, slot),
        i < j < events.len(),
    ensures
        poll_step(poll_run(events.take(j)), events[j]) matches Some(step) ==> {
            &&& step.action != (PollActionView::Request { slot })
            &&& step.action matches PollActionView::Forward { message } ==> message.slot != slot
        },
{
    lemma_done_after(events, i, j, slot);
    lemma_prefix_clock(events, j);
    lemma_done_stays(
        poll_run(events.take(j)),
        last_clock(events.take(j)),
        events[j],
        slot,
    );
}

/// A slot is marked as polled once an answer for it, or for another slot in its place, has been
/// dealt with, whether or not the constraints could be handed on.
pub proof fn answered_slot_is_marked(poller: PollerView, cycle: PollCycle, event: PollEvent)
    requires
        match event {
            PollEvent::Handed { .. } => poller.state == PollState::Forwarding(cycle),
            PollEvent::Answered(answer) => {
                &&& poller.state == PollState::Requesting(cycle)
                &&& answer@.len() > 0
                &&& answer@[0].message.slot != cycle.turn()
            },
            _ => false,
        },
    ensures
        poll_step(poller, event) matches Some(step) && step.poller.polled.contains(cycle.turn()),
{
}

} // verus!
