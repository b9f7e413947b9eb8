//! The pool that constraints wait in until their slot.

use crate::collections::hash_map::{
    number_map_get, number_map_insert, number_map_keys, number_map_new, number_map_remove,
    NumberMap,
};
use crate::collections::lru::{
    keys_after_put, lru_capacity, lru_contains, lru_keys, lru_new, lru_put, SlotCache,
};
use crate::constraint_input::constraint_sink::{
    CommandView, ConstraintPoolCommand, ConstraintSender2ConstraintSink, ConstraintSink,
};
use crate::constraint_input::messages::{
    empty_message, ConstraintsMessage, ConstraintsMessageView,
};
use vstd::prelude::*;

verus! {

/// How many slots are remembered for deduplication
pub const KNOWN_CONSTRAINTS_CAPACITY: usize = 1_000;

#[derive(Debug)]
pub struct ConstraintsForSlot {
    pub new_constraint_sub: tokio::sync::mpsc::UnboundedReceiver<ConstraintPoolCommand>,
}

impl ConstraintsForSlot {
    /// Helper to create a [`ConstraintsForSlot`] "wrapped" with a [`ConstraintSender2ConstraintSink`].
    /// Give this `ConstraintsForSlot` to a pull stage and push on the returned sink.
    pub fn new_with_sink() -> (ends: (Self, ConstraintSender2ConstraintSink))
        ensures
            ends.1.sent() == Seq::<CommandView>::empty(),
            !ends.1.refused(),
            ends.1.feeds(ends.0.new_constraint_sub),
    {
        let (sink, receiver) = ConstraintSender2ConstraintSink::new();
        (ConstraintsForSlot { new_constraint_sub: receiver }, sink)
    }
}

#[derive(Debug)]
struct SinkSubscription<S> {
    sink: S,
    slot: u64,
}

/// Returned by `add_sink` so callers can later remove that subscription.
#[derive(Debug, Eq, Hash, PartialEq, Clone)]
pub struct ConstraintPoolSubscriptionId(u64);

impl View for ConstraintPoolSubscriptionId {
    type V = u64;

    closed spec fn view(&self) -> u64 {
        self.0
    }
}

/// What a pool stores of constraints.
#[verifier::ext_equal]
pub struct PoolStore {
    /// Constraints by target slot
    pub constraints: Map<u64, ConstraintsMessageView>,
    /// Slots that constraints are known of, the latest first
    pub known: Seq<u64>,
}

/// The slot that a command is about.
pub open spec fn target_slot(command: CommandView) -> u64 {
    match command {
        CommandView::Insert(message) => message.slot,
        CommandView::RemoveSlot(slot) => slot,
    }
}

/// What is stored after a command: the first message for a slot that is not known is kept;
/// removing a slot drops its message and leaves it known.
pub open spec fn store_after(store: PoolStore, command: CommandView) -> PoolStore {
    match command {
        CommandView::Insert(message) => if store.known.contains(message.slot) {
            store
        } else {
            PoolStore {
                constraints: store.constraints.insert(message.slot, message),
                known: keys_after_put(
                    store.known,
                    KNOWN_CONSTRAINTS_CAPACITY as nat,
                    message.slot,
                ),
            }
        },
        CommandView::RemoveSlot(slot) => PoolStore {
            constraints: store.constraints.remove(slot),
            ..store
        },
    }
}

/// What is stored after commands, in order.
pub open spec fn store_after_all(store: PoolStore, commands: Seq<CommandView>) -> PoolStore
    decreases commands.len(),
{
    if commands.len() == 0 {
        store
    } else {
        store_after(store_after_all(store, commands.drop_last()), commands.last())
    }
}

/// What is stored once the slots before `current_slot` have expired.
pub open spec fn store_from(store: PoolStore, current_slot: u64) -> PoolStore {
    PoolStore {
        constraints: Map::new(
            |slot: u64| store.constraints.contains_key(slot) && slot >= current_slot,
            |slot: u64| store.constraints[slot],
        ),
        ..store
    }
}

/// Whether a store is in order: messages are kept under their slot, and slots are remembered once
/// each, as many as there is room for.
pub open spec fn store_wf(store: PoolStore) -> bool {
    &&& forall|slot: u64| #[trigger]
        store.constraints.contains_key(slot) ==> store.constraints[slot].slot == slot
    &&& store.known.no_duplicates()
    &&& store.known.len() <= KNOWN_CONSTRAINTS_CAPACITY
}

/// A sink and the slot that it is subscribed to.
pub struct Subscription<S> {
    pub sink: S,
    pub slot: u64,
}

/// What may become of a subscription when a command is processed. A sink that says it is dead is
/// dropped as it is. A live sink of the command's slot is handed the command, and dropped if it
/// refuses it. The others stay as they are.
pub open spec fn subscription_step<S: ConstraintSink>(
    before: Subscription<S>,
    command: CommandView,
    after: Option<Subscription<S>>,
    dropped: Option<S>,
) -> bool {
    match after {
        None => {
            &&& dropped matches Some(sink)
            &&& {
                ||| before.sink.answers(false) && sink == before.sink
                ||| {
                    &&& before.sink.answers(true)
                    &&& before.slot == target_slot(command)
                    &&& before.sink.takes(command, sink, false)
                }
            }
        },
        Some(after) => {
            &&& dropped is None
            &&& before.sink.answers(true)
            &&& after.slot == before.slot
            &&& if before.slot == target_slot(command) {
                before.sink.takes(command, after.sink, true)
            } else {
                after.sink == before.sink
            }
        },
    }
}

/// The entry of a map under a key.
pub open spec fn entry<V>(map: Map<u64, V>, key: u64) -> Option<V> {
    if map.contains_key(key) {
        Some(map[key])
    } else {
        None
    }
}

/// What may become of the subscriptions when a command is processed: each goes its own way and
/// none appears. The sinks that are dropped are in the state that the command left them in.
pub open spec fn subscriptions_step<S: ConstraintSink>(
    before: Map<u64, Subscription<S>>,
    command: CommandView,
    after: Map<u64, Subscription<S>>,
    dropped: Map<u64, S>,
) -> bool {
    &&& after.dom().subset_of(before.dom())
    &&& dropped.dom().subset_of(before.dom())
    &&& forall|id: u64| #[trigger]
        before.contains_key(id) ==> subscription_step(
            before[id],
            command,
            entry(after, id),
            entry(dropped, id),
        )
}

/// What may become of the subscriptions when commands are processed in order.
pub open spec fn subscriptions_run<S: ConstraintSink>(
    before: Map<u64, Subscription<S>>,
    commands: Seq<CommandView>,
    after: Map<u64, Subscription<S>>,
) -> bool
    decreases commands.len(),
{
    if commands.len() == 0 {
        after == before
    } else {
        exists|between: Map<u64, Subscription<S>>, dropped: Map<u64, S>|
            {
                &&& subscriptions_run(before, commands.drop_last(), between)
                &&& #[trigger] subscriptions_step(between, commands.last(), after, dropped)
            }
    }
}

/// What may become of a subscription when the head moves to `current_slot`: it stays as it is
/// where its sink is alive and its slot is not past, and is dropped otherwise.
pub open spec fn subscription_updated<S: ConstraintSink>(
    before: Subscription<S>,
    current_slot: u64,
    after: Option<Subscription<S>>,
) -> bool {
    match after {
        None => before.sink.answers(false) || before.slot < current_slot,
        Some(after) => after == before && before.sink.answers(true) && before.slot >= current_slot,
    }
}

/// What may become of the subscriptions when the head moves: each goes its own way and none
/// appears.
pub open spec fn subscriptions_updated<S: ConstraintSink>(
    before: Map<u64, Subscription<S>>,
    current_slot: u64,
    after: Map<u64, Subscription<S>>,
) -> bool {
    &&& after.dom().subset_of(before.dom())
    &&& forall|id: u64| #[trigger]
        before.contains_key(id) ==> subscription_updated(
            before[id],
            current_slot,
            entry(after, id),
        )
}

/// Whether a command removes a slot before `current_slot` that a message is stored for.
pub open spec fn is_removal_of_expired(
    command: CommandView,
    store: PoolStore,
    current_slot: u64,
) -> bool {
    command matches CommandView::RemoveSlot(slot) && slot < current_slot
        && store.constraints.contains_key(slot)
}

/// Whether commands remove the slots before `current_slot` that messages are stored for, each
/// once, and do nothing else.
pub open spec fn removes_expired(
    commands: Seq<CommandView>,
    store: PoolStore,
    current_slot: u64,
) -> bool {
    &&& commands.no_duplicates()
    &&& forall|k: int|
        0 <= k < commands.len() ==> is_removal_of_expired(
            #[trigger] commands[k],
            store,
            current_slot,
        )
    &&& forall|slot: u64| #[trigger]
        store.constraints.contains_key(slot) && slot < current_slot ==> commands.contains(
            CommandView::RemoveSlot(slot),
        )
}

/// What commands state.
pub open spec fn command_views(commands: Seq<ConstraintPoolCommand>) -> Seq<CommandView> {
    commands.map_values(|c: ConstraintPoolCommand| c@)
}

/// Repository of ALL constraints received via `process_commands`.
/// No business logic here: we just store, dedupe, and replay per-block events.
/// Expiration is explicit: either via `RemoveSlot(slot)` commands, or programmatic `slot_updated`.
pub struct ConstraintPool<S> {
    /// Constraints by target slot.
    constraints_by_slot: NumberMap<ConstraintsMessage>,
    /// Deduplication cache for constraints using (slot) as key.
    known_constraints: SlotCache,
    /// Active downstream sinks keyed by subscription id.
    sinks: NumberMap<SinkSubscription<S>>,
    next_sink_id: u64,
}

spec fn message_views(messages: Map<u64, ConstraintsMessage>) -> Map<
    u64,
    ConstraintsMessageView,
> {
    messages.map_values(|m: ConstraintsMessage| m@)
}

spec fn subscription_views<S>(sinks: Map<u64, SinkSubscription<S>>) -> Map<u64, Subscription<S>> {
    sinks.map_values(|s: SinkSubscription<S>| Subscription { sink: s.sink, slot: s.slot })
}

impl<S: ConstraintSink> ConstraintPool<S> {
    /// The store is in order, and the ids of the subscriptions were given out.
    pub closed spec fn wf(&self) -> bool {
        &&& store_wf(self.store())
        &&& lru_capacity(self.known_constraints) == KNOWN_CONSTRAINTS_CAPACITY
        &&& forall|id: u64| #[trigger]
            self.subscriptions().contains_key(id) ==> id < self.next_sink_id
    }

    /// What is stored of constraints.
    pub closed spec fn store(&self) -> PoolStore {
        PoolStore {
            constraints: message_views(self.constraints_by_slot@),
            known: lru_keys(self.known_constraints),
        }
    }

    /// The subscriptions by id.
    pub closed spec fn subscriptions(&self) -> Map<u64, Subscription<S>> {
        subscription_views(self.sinks@)
    }

    /// The id that the next subscription gets; as many were given out before.
    pub closed spec fn next_id(&self) -> u64 {
        self.next_sink_id
    }

    pub fn new() -> (pool: Self)
        ensures
            pool.wf(),
            pool.store().constraints == Map::<u64, ConstraintsMessageView>::empty(),
            pool.store().known == Seq::<u64>::empty(),
            pool.subscriptions() == Map::<u64, Subscription<S>>::empty(),
            pool.next_id() == 0,
    {
        let pool = ConstraintPool {
            constraints_by_slot: number_map_new(),
            known_constraints: lru_new(KNOWN_CONSTRAINTS_CAPACITY),
            sinks: number_map_new(),
            next_sink_id: 0,
        };
        proof {
            assert(pool.store().constraints =~= Map::empty());
            assert(pool.store().known =~= Seq::empty());
            assert(pool.subscriptions() =~= Map::empty());
        }
        pool
    }

    /// How many subscriptions were made so far.
    pub fn subscriptions_made(&self) -> (count: u64)
        ensures
            count == self.next_id(),
    {
        self.next_sink_id
    }

    /// Process a batch of commands (insertions or per-slot removals).
    pub fn process_commands(&mut self, commands: Vec<ConstraintPoolCommand>)
        requires
            old(self).wf(),
        ensures
            final(self).wf(),
            final(self).store() == store_after_all(old(self).store(), command_views(commands@)),
            subscriptions_run(
                old(self).subscriptions(),
                command_views(commands@),
                final(self).subscriptions(),
            ),
            final(self).next_id() == old(self).next_id(),
    {
        let ghost views = command_views(commands@);
        let ghost store = self.store();
        let ghost subscriptions = self.subscriptions();
        let ghost next_id = self.next_id();
        let mut i: usize = 0;
        while i < commands.len()
            invariant
                i <= commands@.len(),
                views == command_views(commands@),
                self.wf(),
                self.store() == store_after_all(store, views.take(i as int)),
                subscriptions_run(subscriptions, views.take(i as int), self.subscriptions()),
                self.next_id() == next_id,
            decreases commands@.len() - i,
        {
            let ghost between = self.subscriptions();
            let dropped = self.process_command(&commands[i]);
            proof {
                let taken = views.take(i + 1);
                assert(taken.drop_last() =~= views.take(i as int));
                assert(taken.last() == commands@[i as int]@);
                assert(subscriptions_step(
                    between,
                    taken.last(),
                    self.subscriptions(),
                    dropped@,
                ));
            }
            i += 1;
        }
        assert(views.take(i as int) =~= views);
    }

    /// Adds a sink and pushes the current state for the requested block.
    /// (No pruning here; expiry/cleanup happens via explicit events.)
    pub fn add_sink(&mut self, slot: u64, sink: S) -> (id: ConstraintPoolSubscriptionId)
        requires
            old(self).wf(),
            old(self).next_id() < u64::MAX,
        ensures
            final(self).wf(),
            id@ == old(self).next_id(),
            final(self).next_id() == old(self).next_id() + 1,
            final(self).store() == old(self).store(),
            !old(self).subscriptions().contains_key(id@),
            final(self).subscriptions().contains_key(id@),
            final(self).subscriptions() == old(self).subscriptions().insert(
                id@,
                final(self).subscriptions()[id@],
            ),
            final(self).subscriptions()[id@].slot == slot,
            if old(self).store().constraints.contains_key(slot) {
                exists|ok: bool| #[trigger]
                    sink.takes(
                        CommandView::Insert(old(self).store().constraints[slot]),
                        final(self).subscriptions()[id@].sink,
                        ok,
                    )
            } else {
                final(self).subscriptions()[id@].sink == sink
            },
    {
        let ghost before = self.subscriptions();
        let ghost store = self.store();
        let ghost given = sink;
        let mut sink = sink;
        match number_map_get(&self.constraints_by_slot, slot) {
            Some(existing) => {
                // Replay snapshot for this block
                let ok = sink.insert_constraint(existing.duplicate());
                proof {
                    assert(store.constraints.contains_key(slot));
                    assert(store.constraints[slot] == existing@);
                    assert(given.takes(CommandView::Insert(store.constraints[slot]), sink, ok));
                }
            },
            None => {
                assert(!store.constraints.contains_key(slot));
            },
        }
        let id = ConstraintPoolSubscriptionId(self.next_sink_id);
        self.next_sink_id += 1;
        let _ = number_map_insert(&mut self.sinks, id.0, SinkSubscription { sink, slot });
        proof {
            assert(self.subscriptions() =~= before.insert(
                id@,
                Subscription { sink, slot },
            ));
            assert(self.subscriptions()[id@].sink == sink);
        }
        id
    }

    /// Removes the sink. If present, returns it to the caller.
    pub fn remove_sink(&mut self, id: &ConstraintPoolSubscriptionId) -> (sink: Option<S>)
        requires
            old(self).wf(),
        ensures
            final(self).wf(),
            final(self).store() == old(self).store(),
            final(self).next_id() == old(self).next_id(),
            final(self).subscriptions() == old(self).subscriptions().remove(id@),
            match sink {
                Some(sink) => old(self).subscriptions().contains_key(id@) && sink == old(
                    self,
                ).subscriptions()[id@].sink,
                None => !old(self).subscriptions().contains_key(id@),
            },
    {
        let ghost before = self.subscriptions();
        let removed = number_map_remove(&mut self.sinks, id.0);
        assert(self.subscriptions() =~= before.remove(id@));
        match removed {
            Some(subscription) => Some(subscription.sink),
            None => None,
        }
    }

    /// Should be called when current head/slot is updated. Expires all slots `< current_slot`.
    /// This *notifies sinks* (no silent pruning): the sinks of an expired slot are told that its
    /// constraints are removed. Then subscriptions for past slots are dropped entirely, and dead
    /// ones with them.
    pub fn slot_updated(&mut self, current_slot: u64)
        requires
            old(self).wf(),
        ensures
            final(self).wf(),
            final(self).store() == store_from(old(self).store(), current_slot),
            final(self).next_id() == old(self).next_id(),
            exists|removals: Seq<CommandView>, notified: Map<u64, Subscription<S>>|
                {
                    &&& removes_expired(removals, old(self).store(), current_slot)
                    &&& #[trigger] subscriptions_run(old(self).subscriptions(), removals, notified)
                    &&& subscriptions_updated(
                        notified,
                        current_slot,
                        final(self).subscriptions(),
                    )
                },
    {
        let ghost store = self.store();
        let removals = self.expiry_commands(current_slot);
        let ghost views = command_views(removals@);
        self.process_commands(removals);
        proof {
            lemma_expired_store(store, views, current_slot);
        }
        // Also drop subscriptions for past slots entirely.
        let _ = self.drop_past_subscriptions(current_slot);
    }

    /// Commands that remove the slots before `current_slot`.
    fn expiry_commands(&self, current_slot: u64) -> (removals: Vec<ConstraintPoolCommand>)
        ensures
            removes_expired(command_views(removals@), self.store(), current_slot),
    {
        let slots = number_map_keys(&self.constraints_by_slot);
        let mut removals: Vec<ConstraintPoolCommand> = Vec::new();
        let ghost store = self.store();
        let mut i: usize = 0;
        while i < slots.len()
            invariant
                i <= slots@.len(),
                slots@.no_duplicates(),
                forall|s: u64| slots@.contains(s) <==> store.constraints.contains_key(s),
                forall|k: int|
                    0 <= k < removals@.len() ==> (#[trigger] removals@[k] matches ConstraintPoolCommand::RemoveSlot(s)
                        && s < current_slot && slots@.take(i as int).contains(s)),
                command_views(removals@).no_duplicates(),
                forall|k: int|
                    0 <= k < i && slots@[k] < current_slot ==> command_views(removals@).contains(
                        CommandView::RemoveSlot(#[trigger] slots@[k]),
                    ),
            decreases slots@.len() - i,
        {
            let slot: u64 = slots[i];
            let ghost before = removals@;
            let ghost taken = slots@.take(i as int);
            let ghost next = slots@.take(i + 1);
            proof {
                assert(next =~= taken.push(slot));
                assert forall|s: u64| taken.contains(s) implies #[trigger] next.contains(s) by {
                    let k = choose|k: int| 0 <= k < taken.len() && taken[k] == s;
                    assert(next[k] == s);
                }
                assert(next[i as int] == slot);
                assert(!taken.contains(slot)) by {
                    if taken.contains(slot) {
                        let k = choose|k: int| 0 <= k < taken.len() && taken[k] == slot;
                        assert(slots@[k] == slots@[i as int]);
                    }
                }
            }
            if slot < current_slot {
                removals.push(ConstraintPoolCommand::RemoveSlot(slot));
                proof {
                    let old_views = command_views(before);
                    let views = command_views(removals@);
                    assert(views =~= old_views.push(CommandView::RemoveSlot(slot)));
                    assert forall|k: int| 0 <= k < old_views.len() implies old_views[k]
                        != CommandView::RemoveSlot(slot) by {
                        assert(old_views[k] == before[k]@);
                    }
                    assert forall|k: int|
                        0 <= k < i + 1 && slots@[k] < current_slot implies views.contains(
                        CommandView::RemoveSlot(#[trigger] slots@[k]),
                    ) by {
                        if k < i {
                            let c = CommandView::RemoveSlot(slots@[k]);
                            let m = choose|m: int| 0 <= m < old_views.len() && old_views[m] == c;
                            assert(views[m] == c);
                        } else {
                            assert(views[old_views.len() as int] == CommandView::RemoveSlot(slot));
                        }
                    }
                }
            }
            i += 1;
        }
        proof {
            let views = command_views(removals@);
            assert forall|k: int| 0 <= k < views.len() implies is_removal_of_expired(
                #[trigger] views[k],
                store,
                current_slot,
            ) by {
                assert(views[k] == removals@[k]@);
                assert(slots@.take(i as int) =~= slots@);
            }
            assert forall|s: u64| #[trigger]
                store.constraints.contains_key(s) && s < current_slot implies views.contains(
                CommandView::RemoveSlot(s),
            ) by {
                assert(slots@.contains(s));
                let k = choose|k: int| 0 <= k < slots@.len() && slots@[k] == s;
                assert(slots@[k] == s);
            }
        }
        removals
    }

    /// Drops the subscriptions of past slots and those whose sinks are dead. Gives back the sinks
    /// that were dropped, as they were.
    fn drop_past_subscriptions(&mut self, current_slot: u64) -> (dropped: NumberMap<S>)
        requires
            old(self).wf(),
        ensures
            final(self).wf(),
            final(self).store() == old(self).store(),
            final(self).next_id() == old(self).next_id(),
            subscriptions_updated(
                old(self).subscriptions(),
                current_slot,
                final(self).subscriptions(),
            ),
            forall|id: u64| #[trigger]
                old(self).subscriptions().contains_key(id) ==> entry(dropped@, id) == (
                if final(self).subscriptions().contains_key(id) {
                    None
                } else {
                    Some(old(self).subscriptions()[id].sink)
                }),
    {
        let mut dropped: NumberMap<S> = number_map_new();
        let ids = number_map_keys(&self.sinks);
        let ghost before = self.subscriptions();
        let ghost store = self.store();
        let ghost next_id = self.next_id();
        let mut i: usize = 0;
        while i < ids.len()
            invariant
                i <= ids@.len(),
                ids@.no_duplicates(),
                forall|id: u64| ids@.contains(id) <==> before.contains_key(id),
                self.wf(),
                self.store() == store,
                self.next_id() == next_id,
                self.subscriptions().dom().subset_of(before.dom()),
                forall|k: int|
                    0 <= k < i ==> subscription_updated(
                        before[#[trigger] ids@[k]],
                        current_slot,
                        entry(self.subscriptions(), ids@[k]),
                    ),
                forall|k: int|
                    0 <= k < i ==> entry(dropped@, #[trigger] ids@[k])
                        == if self.subscriptions().contains_key(ids@[k]) {
                        None
                    } else {
                        Some(before[ids@[k]].sink)
                    },
                forall|k: int|
                    i <= k < ids@.len() ==> entry(self.subscriptions(), #[trigger] ids@[k])
                        == entry(before, ids@[k]) && !dropped@.contains_key(ids@[k]),
            decreases ids@.len() - i,
        {
            let id: u64 = ids[i];
            let ghost earlier = self.subscriptions();
            assert(ids@.contains(id));
            assert(entry(earlier, ids@[i as int]) == entry(before, ids@[i as int]));
            let keep = match number_map_get(&self.sinks, id) {
                Some(subscription) => subscription.sink.is_alive() && subscription.slot
                    >= current_slot,
                None => true,
            };
            if !keep {
                match number_map_remove(&mut self.sinks, id) {
                    Some(subscription) => {
                        let _ = number_map_insert(&mut dropped, id, subscription.sink);
                    },
                    None => {},
                }
                assert(self.subscriptions() =~= earlier.remove(id));
            }
            i += 1;
        }
        proof {
            assert forall|id: u64| #[trigger] before.contains_key(id) implies subscription_updated(
                before[id],
                current_slot,
                entry(self.subscriptions(), id),
            ) && entry(dropped@, id) == (if self.subscriptions().contains_key(id) {
                None
            } else {
                Some(before[id].sink)
            }) by {
                assert(ids@.contains(id));
                let k = choose|k: int| 0 <= k < ids@.len() && ids@[k] == id;
                assert(ids@[k] == id);
            }
        }
        dropped
    }

    /// Single-command entry point: mutate internal state, then forward to interested sinks.
    /// Gives back the sinks that were dropped.
    fn process_command(&mut self, command: &ConstraintPoolCommand) -> (dropped: NumberMap<S>)
        requires
            old(self).wf(),
        ensures
            final(self).wf(),
            final(self).store() == store_after(old(self).store(), command@),
            subscriptions_step(
                old(self).subscriptions(),
                command@,
                final(self).subscriptions(),
                dropped@,
            ),
            final(self).next_id() == old(self).next_id(),
    {
        // 1) Mutate state
        match command {
            ConstraintPoolCommand::Insert(c) => self.process_constraints(c),
            ConstraintPoolCommand::RemoveSlot(slot) => self.process_remove_slot(*slot),
        }
        // 2) Forward to matching sinks and drop dead ones
        let mut dropped: NumberMap<S> = number_map_new();
        let ids = number_map_keys(&self.sinks);
        let ghost before = self.subscriptions();
        let ghost store = self.store();
        let ghost next_id = self.next_id();
        let mut i: usize = 0;
        while i < ids.len()
            invariant
                i <= ids@.len(),
                ids@.no_duplicates(),
                forall|id: u64| ids@.contains(id) <==> before.contains_key(id),
                self.wf(),
                self.store() == store,
                self.next_id() == next_id,
                self.subscriptions().dom().subset_of(before.dom()),
                dropped@.dom().subset_of(before.dom()),
                forall|k: int|
                    0 <= k < i ==> subscription_step(
                        before[#[trigger] ids@[k]],
                        command@,
                        entry(self.subscriptions(), ids@[k]),
                        entry(dropped@, ids@[k]),
                    ),
                forall|k: int|
                    i <= k < ids@.len() ==> entry(self.subscriptions(), #[trigger] ids@[k])
                        == entry(before, ids@[k]) && !dropped@.contains_key(ids@[k]),
            decreases ids@.len() - i,
        {
            let id: u64 = ids[i];
            let ghost earlier = self.subscriptions();
            assert(ids@.contains(id));
            assert(entry(earlier, ids@[i as int]) == entry(before, ids@[i as int]));
            match number_map_remove(&mut self.sinks, id) {
                Some(subscription) => {
                    assert(self.subscriptions() =~= earlier.remove(id));
                    match forward(subscription, command) {
                        Forwarded::Kept(kept) => {
                            let _ = number_map_insert(&mut self.sinks, id, kept);
                            assert(self.subscriptions() =~= earlier.insert(
                                id,
                                Subscription { sink: kept.sink, slot: kept.slot },
                            ));
                        },
                        Forwarded::Dropped(sink) => {
                            let _ = number_map_insert(&mut dropped, id, sink);
                        },
                    }
                },
                None => {
                    assert(false);
                },
            }
            i += 1;
        }
        proof {
            assert forall|id: u64| #[trigger] before.contains_key(id) implies subscription_step(
                before[id],
                command@,
                entry(self.subscriptions(), id),
                entry(dropped@, id),
            ) by {
                assert(ids@.contains(id));
                let k = choose|k: int| 0 <= k < ids@.len() && ids@[k] == id;
                assert(ids@[k] == id);
            }
        }
        dropped
    }

    /// Insert into in-memory store with dedup.
    fn process_constraints(&mut self, c: &ConstraintsMessage)
        requires
            old(self).wf(),
        ensures
            final(self).wf(),
            final(self).store() == store_after(old(self).store(), CommandView::Insert(c@)),
            final(self).subscriptions() == old(self).subscriptions(),
            final(self).next_id() == old(self).next_id(),
    {
        let ghost store = self.store();
        let ghost subscriptions = self.subscriptions();
        let slot: u64 = c.slot;
        if lru_contains(&self.known_constraints, slot) {
            return;
        }
        let _ = number_map_insert(&mut self.constraints_by_slot, slot, c.duplicate());
        lru_put(&mut self.known_constraints, slot);
        proof {
            assert(self.subscriptions() == subscriptions);
            assert(self.store() =~= store_after(store, CommandView::Insert(c@)));
            lemma_put_keeps_order(store.known, slot);
            assert forall|s: u64| #[trigger]
                self.store().constraints.contains_key(s) implies self.store().constraints[s].slot
                == s by {
                if s != slot {
                    assert(store.constraints.contains_key(s));
                }
            }
        }
    }

    fn process_remove_slot(&mut self, slot: u64)
        requires
            old(self).wf(),
        ensures
            final(self).wf(),
            final(self).store() == store_after(old(self).store(), CommandView::RemoveSlot(slot)),
            final(self).subscriptions() == old(self).subscriptions(),
            final(self).next_id() == old(self).next_id(),
    {
        let ghost store = self.store();
        let ghost subscriptions = self.subscriptions();
        let _ = number_map_remove(&mut self.constraints_by_slot, slot);
        proof {
            assert(self.subscriptions() == subscriptions);
            assert(self.store() =~= store_after(store, CommandView::RemoveSlot(slot)));
            assert forall|s: u64| #[trigger]
                self.store().constraints.contains_key(s) implies self.store().constraints[s].slot
                == s by {
                assert(store.constraints.contains_key(s));
            }
        }
    }

    /// The constraints for a slot, empty where there are none. Expires all slots before it.
    pub fn get_constraints_for_slot(&mut self, slot: u64) -> (message: ConstraintsMessage)
        requires
            old(self).wf(),
        ensures
            final(self).wf(),
            final(self).store() == store_from(old(self).store(), slot),
            final(self).subscriptions() == old(self).subscriptions(),
            final(self).next_id() == old(self).next_id(),
            message@ == (if old(self).store().constraints.contains_key(slot) {
                old(self).store().constraints[slot]
            } else {
                empty_message()
            }),
            !old(self).store().constraints.contains_key(slot) ==> message.slot == 0
                && message.constraints@.len() == 0,
    {
        // Clean up expired constraints (blocks < current block) to prevent memory leaks
        let ghost store = self.store();
        self.cleanup_expired_constraints(slot);
        match number_map_get(&self.constraints_by_slot, slot) {
            Some(message) => {
                assert(self.store().constraints.contains_key(slot));
                assert(self.store().constraints[slot] == message@);
                message.duplicate()
            },
            None => {
                assert(!self.store().constraints.contains_key(slot));
                assert(!store.constraints.contains_key(slot));
                ConstraintsMessage::default()
            },
        }
    }

    /// Clean up constraints for slots that are older than the current slot
    fn cleanup_expired_constraints(&mut self, current_slot: u64)
        requires
            old(self).wf(),
        ensures
            final(self).wf(),
            final(self).store() == store_from(old(self).store(), current_slot),
            final(self).subscriptions() == old(self).subscriptions(),
            final(self).next_id() == old(self).next_id(),
    {
        let slots = number_map_keys(&self.constraints_by_slot);
        let ghost store = self.store();
        let ghost subscriptions = self.subscriptions();
        let ghost next_id = self.next_id();
        let mut i: usize = 0;
        while i < slots.len()
            invariant
                i <= slots@.len(),
                forall|s: u64| slots@.contains(s) <==> store.constraints.contains_key(s),
                self.wf(),
                self.store().known == store.known,
                self.subscriptions() == subscriptions,
                self.next_id() == next_id,
                self.store().constraints.dom().subset_of(store.constraints.dom()),
                forall|s: u64| #[trigger]
                    self.store().constraints.contains_key(s) ==> self.store().constraints[s]
                        == store.constraints[s],
                forall|s: u64|
                    store.constraints.contains_key(s) && s >= current_slot ==> #[trigger]
                    self.store().constraints.contains_key(s),
                forall|k: int|
                    0 <= k < i && slots@[k] < current_slot
                        ==> !self.store().constraints.contains_key(#[trigger] slots@[k]),
            decreases slots@.len() - i,
        {
            let slot: u64 = slots[i];
            if slot < current_slot {
                let ghost earlier = self.store();
                let _ = number_map_remove(&mut self.constraints_by_slot, slot);
                assert(self.store().constraints =~= earlier.constraints.remove(slot));
            }
            i += 1;
        }
        proof {
            let expected = store_from(store, current_slot);
            assert forall|s: u64| #[trigger]
                self.store().constraints.contains_key(s) implies expected.constraints.contains_key(
                s,
            ) by {
                assert(store.constraints.contains_key(s));
                assert(slots@.contains(s));
                let k = choose|k: int| 0 <= k < slots@.len() && slots@[k] == s;
                assert(slots@[k] == s);
            }
            assert(self.store().constraints =~= expected.constraints);
            assert(self.store() =~= expected);
        }
    }
}

/// A subscription after a command: it stays, or its sink is dropped.
enum Forwarded<S> {
    Kept(SinkSubscription<S>),
    Dropped(S),
}

/// Hands a command to a live subscription that it is meant for, and drops the subscription if its
/// sink is dead or refuses the command.
fn forward<S: ConstraintSink>(
    subscription: SinkSubscription<S>,
    command: &ConstraintPoolCommand,
) -> (forwarded: Forwarded<S>)
    ensures
        subscription_step(
            Subscription { sink: subscription.sink, slot: subscription.slot },
            command@,
            match forwarded {
                Forwarded::Kept(kept) => Some(Subscription { sink: kept.sink, slot: kept.slot }),
                Forwarded::Dropped(_) => None,
            },
            match forwarded {
                Forwarded::Kept(_) => None,
                Forwarded::Dropped(sink) => Some(sink),
            },
        ),
{
    if !subscription.sink.is_alive() {
        return Forwarded::Dropped(subscription.sink);
    }
    let ghost before = subscription.sink;
    let mut subscription = subscription;
    if subscription.slot == command_target_slot(command) {
        let ok = match command {
            ConstraintPoolCommand::Insert(c) => subscription.sink.insert_constraint(c.duplicate()),
            ConstraintPoolCommand::RemoveSlot(s) => subscription.sink.remove_constraints_for_slot(
                *s,
            ),
        };
        assert(before.takes(command@, subscription.sink, ok));
        if !ok {
            return Forwarded::Dropped(subscription.sink);
        }
    }
    Forwarded::Kept(subscription)
}

/// The slot that a command is about.
fn command_target_slot(command: &ConstraintPoolCommand) -> (slot: u64)
    ensures
        slot == target_slot(command@),
{
    match command {
        ConstraintPoolCommand::Insert(c) => c.slot,
        ConstraintPoolCommand::RemoveSlot(s) => *s,
    }
}

proof fn lemma_removals(store: PoolStore, commands: Seq<CommandView>)
    requires
        forall|k: int| 0 <= k < commands.len() ==> #[trigger] commands[k] is RemoveSlot,
    ensures
        store_after_all(store, commands).known == store.known,
        forall|slot: u64| #[trigger]
            store_after_all(store, commands).constraints.contains_key(slot) <==> (
            store.constraints.contains_key(slot) && !commands.contains(
                CommandView::RemoveSlot(slot),
            )),
        forall|slot: u64| #[trigger]
            store_after_all(store, commands).constraints.contains_key(slot) ==> store_after_all(
                store,
                commands,
            ).constraints[slot] == store.constraints[slot],
    decreases commands.len(),
{
    if commands.len() > 0 {
        let before = commands.drop_last();
        let last = commands.last();
        assert forall|k: int| 0 <= k < before.len() implies #[trigger] before[k] is RemoveSlot by {
            assert(before[k] == commands[k]);
        }
        lemma_removals(store, before);
        assert(commands[commands.len() - 1] is RemoveSlot);
        assert forall|slot: u64| commands.contains(CommandView::RemoveSlot(slot)) <==> (
        before.contains(CommandView::RemoveSlot(slot)) || last == CommandView::RemoveSlot(
            slot,
        )) by {
            let c = CommandView::RemoveSlot(slot);
            if commands.contains(c) {
                let k = choose|k: int| 0 <= k < commands.len() && commands[k] == c;
                if k < before.len() {
                    assert(before[k] == c);
                }
            }
            if before.contains(c) {
                let k = choose|k: int| 0 <= k < before.len() && before[k] == c;
                assert(commands[k] == c);
            }
            if last == c {
                assert(commands[commands.len() - 1] == c);
            }
        }
        let between = store_after_all(store, before);
        let after = store_after_all(store, commands);
        assert(after == store_after(between, last));
        assert forall|slot: u64| #[trigger]
            after.constraints.contains_key(slot) implies after.constraints[slot]
            == store.constraints[slot] by {
            assert(between.constraints.contains_key(slot));
        }
        assert forall|slot: u64| #[trigger]
            after.constraints.contains_key(slot) <==> (store.constraints.contains_key(slot)
                && !commands.contains(CommandView::RemoveSlot(slot))) by {
            assert(between.constraints.contains_key(slot) <==> (store.constraints.contains_key(slot)
                && !before.contains(CommandView::RemoveSlot(slot))));
        }
    }
}

proof fn lemma_expired_store(store: PoolStore, commands: Seq<CommandView>, current_slot: u64)
    requires
        removes_expired(commands, store, current_slot),
    ensures
        store_after_all(store, commands) == store_from(store, current_slot),
{
    assert forall|k: int| 0 <= k < commands.len() implies #[trigger] commands[k] is RemoveSlot by {
        assert(is_removal_of_expired(commands[k], store, current_slot));
    }
    lemma_removals(store, commands);
    let after = store_after_all(store, commands);
    let expected = store_from(store, current_slot);
    assert forall|slot: u64|
        after.constraints.contains_key(slot) <==> expected.constraints.contains_key(slot) by {
        if commands.contains(CommandView::RemoveSlot(slot)) {
            let k = choose|k: int|
                0 <= k < commands.len() && commands[k] == CommandView::RemoveSlot(slot);
            assert(is_removal_of_expired(commands[k], store, current_slot));
        }
        assert(after.constraints.contains_key(slot) <==> (store.constraints.contains_key(slot)
            && !commands.contains(CommandView::RemoveSlot(slot))));
    }
    assert(after.constraints =~= expected.constraints);
    assert(after =~= expected);
}

proof fn lemma_put_keeps_order(known: Seq<u64>, slot: u64)
    requires
        known.no_duplicates(),
        known.len() <= KNOWN_CONSTRAINTS_CAPACITY,
        !known.contains(slot),
    ensures
        keys_after_put(known, KNOWN_CONSTRAINTS_CAPACITY as nat, slot).no_duplicates(),
        keys_after_put(known, KNOWN_CONSTRAINTS_CAPACITY as nat, slot).len()
            <= KNOWN_CONSTRAINTS_CAPACITY,
        keys_after_put(known, KNOWN_CONSTRAINTS_CAPACITY as nat, slot)[0] == slot,
{
    let after = keys_after_put(known, KNOWN_CONSTRAINTS_CAPACITY as nat, slot);
    assert forall|i: int, j: int|
        0 <= i < after.len() && 0 <= j < after.len() && i != j implies after[i] != after[j] by {
        if i == 0 {
            assert(after[j] == known[j - 1]);
        } else if j == 0 {
            assert(after[i] == known[i - 1]);
        } else {
            assert(after[i] == known[i - 1] && after[j] == known[j - 1]);
        }
    }
}

impl<S: ConstraintSink> Default for ConstraintPool<S> {
    fn default() -> (pool: Self)
        ensures
            pool.wf(),
            pool.store().constraints == Map::<u64, ConstraintsMessageView>::empty(),
            pool.store().known == Seq::<u64>::empty(),
            pool.subscriptions() == Map::<u64, Subscription<S>>::empty(),
            pool.next_id() == 0,
    {
        Self::new()
    }
}

} // verus!
