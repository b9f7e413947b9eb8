//! What a constraint pool promises as a whole.

use crate::constraint_input::constraint_sink::{
    CommandView, ConstraintPoolCommand, ConstraintPrinter, ConstraintSender2ConstraintSink, ConstraintSink,
};
use crate::constraint_input::constraintpool::{
    entry, is_removal_of_expired, removes_expired, store_after, store_after_all, store_from,
    store_wf, subscription_step, subscription_updated, subscriptions_run, subscriptions_step,
    subscriptions_updated, target_slot, PoolStore, Subscription, KNOWN_CONSTRAINTS_CAPACITY,
};
use crate::constraint_input::messages::ConstraintsMessageView;
use crate::collections::lru::keys_after_put;
use vstd::prelude::*;

verus! {

/// Every command and every expiry keeps a store in order.
pub proof fn store_stays_in_order(store: PoolStore, command: CommandView, current_slot: u64)
    requires
        store_wf(store),
    ensures
        store_wf(store_after(store, command)),
        store_wf(store_from(store, current_slot)),
{
    let after = store_after(store, command);
    assert forall|slot: u64| #[trigger]
        after.constraints.contains_key(slot) implies after.constraints[slot].slot == slot by {
        if slot != target_slot(command) {
            assert(store.constraints.contains_key(slot));
        }
    }
    if command is Insert && !store.known.contains(target_slot(command)) {
        let known = after.known;
        assert forall|i: int, j: int|
            0 <= i < known.len() && 0 <= j < known.len() && i != j implies known[i] != known[j] by {
            if i > 0 {
                assert(known[i] == store.known[i - 1]);
            }
            if j > 0 {
                assert(known[j] == store.known[j - 1]);
            }
        }
    }
    let kept = store_from(store, current_slot);
    assert forall|slot: u64| #[trigger]
        kept.constraints.contains_key(slot) implies kept.constraints[slot].slot == slot by {
        assert(store.constraints.contains_key(slot));
    }
}

/// The first message for a slot is stored and makes the slot known.
pub proof fn new_message_is_stored(store: PoolStore, message: ConstraintsMessageView)
    requires
        store_wf(store),
        !store.known.contains(message.slot),
    ensures
        ({
            let after = store_after(store, CommandView::Insert(message));
            &&& after.constraints.contains_key(message.slot)
            &&& after.constraints[message.slot] == message
            &&& after.known.contains(message.slot)
        }),
{
    let after = store_after(store, CommandView::Insert(message));
    assert(after.known[0] == message.slot);
}

/// Messages are deduplicated by slot: once a slot is known, another message for it changes
/// nothing, whether or not the first one is still stored.
pub proof fn known_slot_is_deduplicated(
    store: PoolStore,
    first: ConstraintsMessageView,
    second: ConstraintsMessageView,
)
    requires
        store_wf(store),
        first.slot == second.slot,
    ensures
        ({
            let after = store_after(store, CommandView::Insert(first));
            let removed = store_after(after, CommandView::RemoveSlot(first.slot));
            &&& store_after(after, CommandView::Insert(second)) == after
            &&& store_after(removed, CommandView::Insert(second)) == removed
            &&& !removed.constraints.contains_key(first.slot)
        }),
{
    if !store.known.contains(first.slot) {
        new_message_is_stored(store, first);
    }
}

/// Commands are processed one after the other: a batch gives what its parts give in turn, and a
/// batch of one gives what that command does.
pub proof fn commands_are_processed_in_order(
    store: PoolStore,
    first: Seq<CommandView>,
    second: Seq<CommandView>,
    command: CommandView,
)
    ensures
        store_after_all(store, Seq::empty()) == store,
        store_after_all(store, first + second) == store_after_all(
            store_after_all(store, first),
            second,
        ),
        store_after_all(store, first.push(command)) == store_after(
            store_after_all(store, first),
            command,
        ),
    decreases second.len(),
{
    assert(first.push(command).drop_last() =~= first);
    if second.len() == 0 {
        assert(first + second =~= first);
    } else {
        assert((first + second).drop_last() =~= first + second.drop_last());
        commands_are_processed_in_order(store, first, second.drop_last(), command);
    }
}

/// Removing a slot takes its message out of the store, if it holds one, and leaves what is known
/// as it is; storing a message puts its slot first among those that are known.
pub proof fn command_does_what_it_says(
    store: PoolStore,
    slot: u64,
    message: ConstraintsMessageView,
)
    ensures
        ({
            let removed = store_after(store, CommandView::RemoveSlot(slot));
            &&& entry(removed.constraints, slot) is None
            &&& removed.known == store.known
        }),
        ({
            let inserted = store_after(store, CommandView::Insert(message));
            &&& store.known.contains(message.slot) ==> inserted == store
            &&& !store.known.contains(message.slot) ==> {
                &&& entry(inserted.constraints, message.slot) == Some(message)
                &&& inserted.known.len() > 0
                &&& inserted.known[0] == message.slot
                &&& forall|i: int|
                    1 <= i < inserted.known.len() ==> #[trigger] inserted.known[i]
                        == store.known[i - 1]
                &&& store.known.len() < 1000 ==> inserted.known.len() == store.known.len() + 1
                &&& store.known.len() == 1000 ==> inserted.known.len() == 1000
            }
        }),
        store_from(store, slot).known == store.known,
        target_slot(CommandView::RemoveSlot(slot)) == slot,
        target_slot(CommandView::Insert(message)) == message.slot,
{
}

/// A subscription goes one of four ways when a command is processed, and stays one to its slot. A
/// live sink of the command's slot is told, and stays if it takes the command and goes if it does
/// not; a live sink of another slot stays as it is; a dead one goes as it is.
pub proof fn subscription_goes_its_way<S: ConstraintSink>(
    before: Map<u64, Subscription<S>>,
    command: CommandView,
    after: Map<u64, Subscription<S>>,
    dropped: Map<u64, S>,
    id: u64,
)
    requires
        subscriptions_step(before, command, after, dropped),
    ensures
        after.contains_key(id) ==> before.contains_key(id) && after[id].slot == before[id].slot,
        before.contains_key(id) ==> {
            let sink = before[id].sink;
            let slot = match command {
                CommandView::Insert(message) => message.slot,
                CommandView::RemoveSlot(slot) => slot,
            };
            ||| {
                &&& sink.answers(true)
                &&& before[id].slot == slot
                &&& after.contains_key(id)
                &&& sink.takes(command, after[id].sink, true)
            }
            ||| {
                &&& sink.answers(true)
                &&& before[id].slot == slot
                &&& !after.contains_key(id)
                &&& dropped.contains_key(id)
                &&& sink.takes(command, dropped[id], false)
            }
            ||| {
                &&& sink.answers(true)
                &&& before[id].slot != slot
                &&& after.contains_key(id)
                &&& after[id].sink == sink
            }
            ||| {
                &&& sink.answers(false)
                &&& !after.contains_key(id)
                &&& dropped.contains_key(id)
                &&& dropped[id] == sink
            }
        },
{
    if after.contains_key(id) {
        assert(after.dom().contains(id));
        assert(before.contains_key(id));
    }
    if before.contains_key(id) {
        assert(subscription_step(before[id], command, entry(after, id), entry(dropped, id)));
    }
}

/// When the head moves, a subscription stays as it is where its slot is not past and its sink is
/// alive, and goes otherwise; none appears.
pub proof fn past_subscription_goes<S: ConstraintSink>(
    before: Map<u64, Subscription<S>>,
    current_slot: u64,
    after: Map<u64, Subscription<S>>,
    id: u64,
)
    requires
        subscriptions_updated(before, current_slot, after),
    ensures
        after.contains_key(id) ==> {
            &&& before.contains_key(id)
            &&& after[id] == before[id]
            &&& before[id].slot >= current_slot
            &&& before[id].sink.answers(true)
        },
        before.contains_key(id) && !after.contains_key(id) ==> before[id].slot < current_slot
            || before[id].sink.answers(false),
{
    if after.contains_key(id) {
        assert(after.dom().contains(id));
        assert(before.contains_key(id));
    }
    if before.contains_key(id) {
        assert(subscription_updated(before[id], current_slot, entry(after, id)));
    }
}

/// The commands that announce an expiry are removals, one for each slot before the head that the
/// store holds constraints for.
pub proof fn expiry_is_announced_slot_by_slot(
    removals: Seq<CommandView>,
    store: PoolStore,
    current_slot: u64,
    slot: u64,
)
    requires
        removes_expired(removals, store, current_slot),
    ensures
        removals.contains(CommandView::RemoveSlot(slot)) <==> slot < current_slot
            && store.constraints.contains_key(slot),
        forall|i: int| 0 <= i < removals.len() ==> (#[trigger] removals[i]) is RemoveSlot,
        forall|i: int, j: int|
            0 <= i < j < removals.len() ==> #[trigger] removals[i] != #[trigger] removals[j],
{
    assert forall|i: int| 0 <= i < removals.len() implies (#[trigger] removals[i]) is RemoveSlot by {
        assert(is_removal_of_expired(removals[i], store, current_slot));
    }
    if removals.contains(CommandView::RemoveSlot(slot)) {
        let k = choose|k: int|
            0 <= k < removals.len() && removals[k] == CommandView::RemoveSlot(slot);
        assert(is_removal_of_expired(removals[k], store, current_slot));
    }
    if store.constraints.contains_key(slot) && slot < current_slot {
        assert(removals.contains(CommandView::RemoveSlot(slot)));
    }
}

/// A command leaves the messages of other slots as they are.
pub proof fn other_slots_are_untouched(store: PoolStore, command: CommandView, slot: u64)
    requires
        slot != target_slot(command),
    ensures
        entry(store_after(store, command).constraints, slot) == entry(store.constraints, slot),
{
}

/// Expiring twice is expiring once, up to the later slot; what is for that slot or a later one is
/// never expired.
pub proof fn expiry_composes(store: PoolStore, first: u64, second: u64, slot: u64)
    ensures
        store_from(store_from(store, first), second) == store_from(
            store,
            if first < second {
                second
            } else {
                first
            },
        ),
        entry(store_from(store, first).constraints, slot) == (if slot >= first {
            entry(store.constraints, slot)
        } else {
            None
        }),
{
    let last = if first < second {
        second
    } else {
        first
    };
    assert(store_from(store_from(store, first), second).constraints =~= store_from(
        store,
        last,
    ).constraints);
}

/// A slot is forgotten only to make room for a newer one: while fewer than the capacity came
/// after it, it stays known.
pub proof fn known_slot_is_remembered(store: PoolStore, command: CommandView, slot: u64)
    requires
        store_wf(store),
        store.known.contains(slot),
        store.known.len() < KNOWN_CONSTRAINTS_CAPACITY || store.known.last() != slot,
    ensures
        store_after(store, command).known.contains(slot),
{
    let after = store_after(store, command);
    let k = choose|k: int| 0 <= k < store.known.len() && store.known[k] == slot;
    if command is Insert && !store.known.contains(target_slot(command)) {
        assert(after.known == keys_after_put(
            store.known,
            KNOWN_CONSTRAINTS_CAPACITY as nat,
            target_slot(command),
        ));
        assert(after.known[k + 1] == slot);
    }
}

/// The commands that are about a slot, in order.
pub open spec fn commands_for(commands: Seq<CommandView>, slot: u64) -> Seq<CommandView>
    decreases commands.len(),
{
    if commands.len() == 0 {
        Seq::empty()
    } else {
        let before = commands_for(commands.drop_last(), slot);
        if target_slot(commands.last()) == slot {
            before.push(commands.last())
        } else {
            before
        }
    }
}

/// A channel that is still subscribed after commands were processed was sent exactly those about
/// its slot, in order, and its receiver is the one that it had.
pub proof fn channel_is_sent_its_slot(
    before: Map<u64, Subscription<ConstraintSender2ConstraintSink>>,
    commands: Seq<CommandView>,
    after: Map<u64, Subscription<ConstraintSender2ConstraintSink>>,
    id: u64,
)
    requires
        subscriptions_run(before, commands, after),
        after.contains_key(id),
    ensures
        before.contains_key(id),
        after[id].slot == before[id].slot,
        after[id].sink.sent() == before[id].sink.sent() + commands_for(commands, before[id].slot),
        forall|receiver: tokio::sync::mpsc::UnboundedReceiver<ConstraintPoolCommand>| #[trigger]
            after[id].sink.feeds(receiver) == before[id].sink.feeds(receiver),
    decreases commands.len(),
{
    if commands.len() == 0 {
        assert(after[id].sink.sent() =~= before[id].sink.sent() + commands_for(
            commands,
            before[id].slot,
        ));
    } else {
        let (between, dropped) = choose|
            between: Map<u64, Subscription<ConstraintSender2ConstraintSink>>,
            dropped: Map<u64, ConstraintSender2ConstraintSink>,
        |
            {
                &&& subscriptions_run(before, commands.drop_last(), between)
                &&& #[trigger] subscriptions_step(between, commands.last(), after, dropped)
            };
        assert(after.dom().contains(id));
        assert(between.contains_key(id));
        channel_is_sent_its_slot(before, commands.drop_last(), between, id);
        assert(subscription_step(
            between[id],
            commands.last(),
            entry(after, id),
            entry(dropped, id),
        ));
        assert(after[id].sink.sent() =~= before[id].sink.sent() + commands_for(
            commands,
            before[id].slot,
        ));
    }
}

/// Distinct removals hold at most one for a slot.
proof fn lemma_one_removal(removals: Seq<CommandView>, slot: u64)
    requires
        removals.no_duplicates(),
        forall|k: int| 0 <= k < removals.len() ==> (#[trigger] removals[k]) is RemoveSlot,
    ensures
        commands_for(removals, slot) == (if removals.contains(CommandView::RemoveSlot(slot)) {
            seq![CommandView::RemoveSlot(slot)]
        } else {
            Seq::<CommandView>::empty()
        }),
    decreases removals.len(),
{
    let removal = CommandView::RemoveSlot(slot);
    if removals.len() > 0 {
        let before = removals.drop_last();
        let last = removals.last();
        assert forall|k: int| 0 <= k < before.len() implies (#[trigger] before[k]) is RemoveSlot by {
            assert(before[k] == removals[k]);
        }
        assert(before.no_duplicates()) by {
            assert forall|i: int, j: int| 0 <= i < before.len() && 0 <= j < before.len() && i
                != j implies before[i] != before[j] by {
                assert(removals[i] != removals[j]);
            }
        }
        lemma_one_removal(before, slot);
        assert(removals[removals.len() - 1] == last);
        assert(last is RemoveSlot);
        if before.contains(removal) {
            let k = choose|k: int| 0 <= k < before.len() && before[k] == removal;
            assert(removals[k] == removal);
            assert(removals[k] != removals[removals.len() - 1]);
        } else if removals.contains(removal) {
            let k = choose|k: int| 0 <= k < removals.len() && removals[k] == removal;
            assert(k < before.len() ==> before[k] == removal);
            assert(commands_for(removals, slot) =~= seq![removal]);
        }
    }
}

/// Slots do not expire in silence: a channel that is subscribed to an expired slot with
/// constraints is sent their removal, and nothing else; its receiver is the one that it had.
pub proof fn expired_channel_is_told(
    store: PoolStore,
    before: Map<u64, Subscription<ConstraintSender2ConstraintSink>>,
    removals: Seq<CommandView>,
    notified: Map<u64, Subscription<ConstraintSender2ConstraintSink>>,
    current_slot: u64,
    id: u64,
)
    requires
        removes_expired(removals, store, current_slot),
        subscriptions_run(before, removals, notified),
        notified.contains_key(id),
    ensures
        before.contains_key(id),
        ({
            let slot = before[id].slot;
            notified[id].sink.sent() == if slot < current_slot && store.constraints.contains_key(
                slot,
            ) {
                before[id].sink.sent().push(CommandView::RemoveSlot(slot))
            } else {
                before[id].sink.sent()
            }
        }),
        forall|receiver: tokio::sync::mpsc::UnboundedReceiver<ConstraintPoolCommand>| #[trigger]
            notified[id].sink.feeds(receiver) == before[id].sink.feeds(receiver),
{
    channel_is_sent_its_slot(before, removals, notified, id);
    let slot = before[id].slot;
    let removal = CommandView::RemoveSlot(slot);
    assert forall|k: int| 0 <= k < removals.len() implies (#[trigger] removals[k]) is RemoveSlot by {
        assert(is_removal_of_expired(removals[k], store, current_slot));
    }
    lemma_one_removal(removals, slot);
    if removals.contains(removal) {
        let k = choose|k: int| 0 <= k < removals.len() && removals[k] == removal;
        assert(is_removal_of_expired(removals[k], store, current_slot));
        assert(notified[id].sink.sent() =~= before[id].sink.sent().push(removal));
    } else {
        assert(notified[id].sink.sent() =~= before[id].sink.sent());
        if store.constraints.contains_key(slot) && slot < current_slot {
            assert(removals.contains(CommandView::RemoveSlot(slot)));
        }
    }
}

/// A sink that is always alive and takes everything in stays subscribed.
pub proof fn printer_stays_subscribed(
    before: Map<u64, Subscription<ConstraintPrinter>>,
    commands: Seq<CommandView>,
    after: Map<u64, Subscription<ConstraintPrinter>>,
)
    requires
        subscriptions_run(before, commands, after),
    ensures
        after == before,
    decreases commands.len(),
{
    if commands.len() > 0 {
        let (between, dropped) = choose|
            between: Map<u64, Subscription<ConstraintPrinter>>,
            dropped: Map<u64, ConstraintPrinter>,
        |
            {
                &&& subscriptions_run(before, commands.drop_last(), between)
                &&& #[trigger] subscriptions_step(between, commands.last(), after, dropped)
            };
        printer_stays_subscribed(before, commands.drop_last(), between);
        assert forall|id: u64| #[trigger] between.contains_key(id) implies after.contains_key(id)
            && after[id] == between[id] by {
            assert(subscription_step(
            between[id],
            commands.last(),
            entry(after, id),
            entry(dropped, id),
        ));
        }
        assert(after =~= between);
    }
}

/// No command reaches a dead sink: it is dropped in the state that it was in.
pub proof fn dead_sink_is_dropped_untouched<S: ConstraintSink>(
    before: Map<u64, Subscription<S>>,
    command: CommandView,
    after: Map<u64, Subscription<S>>,
    dropped: Map<u64, S>,
    id: u64,
)
    requires
        subscriptions_step(before, command, after, dropped),
        before.contains_key(id),
        !before[id].sink.answers(true),
    ensures
        !after.contains_key(id),
        entry(dropped, id) == Some(before[id].sink),
{
    assert(subscription_step(before[id], command, entry(after, id), entry(dropped, id)));
}

/// A sink of another slot is not touched by commands.
pub proof fn other_subscriptions_are_untouched<S: ConstraintSink>(
    before: Map<u64, Subscription<S>>,
    commands: Seq<CommandView>,
    after: Map<u64, Subscription<S>>,
    id: u64,
)
    requires
        subscriptions_run(before, commands, after),
        after.contains_key(id),
        commands_for(commands, after[id].slot).len() == 0,
    ensures
        before.contains_key(id),
        after[id] == before[id],
    decreases commands.len(),
{
    if commands.len() > 0 {
        let (between, dropped) = choose|
            between: Map<u64, Subscription<S>>,
            dropped: Map<u64, S>,
        |
            {
                &&& subscriptions_run(before, commands.drop_last(), between)
                &&& #[trigger] subscriptions_step(between, commands.last(), after, dropped)
            };
        assert(after.dom().contains(id));
        assert(between.contains_key(id));
        assert(subscription_step(
            between[id],
            commands.last(),
            entry(after, id),
            entry(dropped, id),
        ));
        assert(after[id] == between[id]);
        other_subscriptions_are_untouched(before, commands.drop_last(), between, id);
    }
}

/// A stored message stays, whatever other commands come, until its slot is removed, as long as
/// there is room to remember every slot.
pub proof fn stored_message_stays(
    store: PoolStore,
    commands: Seq<CommandView>,
    message: ConstraintsMessageView,
)
    requires
        store_wf(store),
        store.known.contains(message.slot),
        entry(store.constraints, message.slot) == Some(message),
        forall|i: int|
            0 <= i < commands.len() ==> commands[i] != CommandView::RemoveSlot(message.slot),
        store.known.len() + commands.len() <= KNOWN_CONSTRAINTS_CAPACITY,
    ensures
        store_wf(store_after_all(store, commands)),
        store_after_all(store, commands).known.contains(message.slot),
        store_after_all(store, commands).known.len() <= store.known.len() + commands.len(),
        entry(store_after_all(store, commands).constraints, message.slot) == Some(message),
    decreases commands.len(),
{
    if commands.len() > 0 {
        let before = commands.drop_last();
        assert forall|i: int| 0 <= i < before.len() implies before[i] != CommandView::RemoveSlot(
            message.slot,
        ) by {
            assert(before[i] == commands[i]);
        }
        stored_message_stays(store, before, message);
        let between = store_after_all(store, before);
        let last = commands.last();
        assert(commands[commands.len() - 1] == last);
        store_stays_in_order(between, last, 0);
        known_slot_is_remembered(between, last, message.slot);
        if target_slot(last) != message.slot {
            other_slots_are_untouched(between, last, message.slot);
        }
    }
}

} // verus!
