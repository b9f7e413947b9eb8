//! Receivers of constraint commands.

use crate::constraint_input::messages::{ConstraintsMessage, ConstraintsMessageView};
use vstd::prelude::*;

verus! {

#[verifier::external_type_specification]
#[verifier::external_body]
#[verifier::reject_recursive_types(T)]
pub struct ExUnboundedSender<T>(tokio::sync::mpsc::UnboundedSender<T>);

#[verifier::external_type_specification]
#[verifier::external_body]
#[verifier::reject_recursive_types(T)]
pub struct ExUnboundedReceiver<T>(tokio::sync::mpsc::UnboundedReceiver<T>);

/// Commands for push-to-pull adaptation.
#[derive(Debug, Clone)]
pub enum ConstraintPoolCommand {
    Insert(ConstraintsMessage),
    RemoveSlot(u64),
}

/// What a `ConstraintPoolCommand` states.
pub enum CommandView {
    Insert(ConstraintsMessageView),
    RemoveSlot(u64),
}

impl View for ConstraintPoolCommand {
    type V = CommandView;

    open spec fn view(&self) -> CommandView {
        match self {
            ConstraintPoolCommand::Insert(message) => CommandView::Insert(message@),
            ConstraintPoolCommand::RemoveSlot(slot) => CommandView::RemoveSlot(*slot),
        }
    }
}

/// Receiver of constraint commands (immutable inserts; removals are by slot).
/// Methods return `bool` so the source can drop dead subscribers immediately.
pub trait ConstraintSink: core::fmt::Debug + Send + Sized {
    /// Whether a sink in state `self` may take `command` in, answer `ok` and be in state `after`.
    spec fn takes(self, command: CommandView, after: Self, ok: bool) -> bool;

    /// Whether a sink in state `self` may answer `alive` when it is asked if it is alive.
    spec fn answers(self, alive: bool) -> bool;

    fn insert_constraint(&mut self, constraints: ConstraintsMessage) -> (ok: bool)
        ensures
            old(self).takes(CommandView::Insert(constraints@), *final(self), ok),
    ;

    fn remove_constraints_for_slot(&mut self, slot: u64) -> (ok: bool)
        ensures
            old(self).takes(CommandView::RemoveSlot(slot), *final(self), ok),
    ;

    fn is_alive(&self) -> (alive: bool)
        ensures
            self.answers(alive),
    ;
}

/// Minimal sink that takes everything in and keeps nothing.
#[derive(Debug)]
pub struct ConstraintPrinter;

impl ConstraintSink for ConstraintPrinter {
    open spec fn takes(self, command: CommandView, after: Self, ok: bool) -> bool {
        ok && after == self
    }

    open spec fn answers(self, alive: bool) -> bool {
        alive
    }

    fn insert_constraint(&mut self, constraints: ConstraintsMessage) -> (ok: bool) {
        true
    }

    // Constraints are removed by slot, not by ID (differs from orders).
    fn remove_constraints_for_slot(&mut self, slot: u64) -> (ok: bool) {
        true
    }

    fn is_alive(&self) -> (alive: bool) {
        true
    }
}

/// The commands that went into a channel through its sender, oldest first.
pub uninterp spec fn sent_commands(
    sender: tokio::sync::mpsc::UnboundedSender<ConstraintPoolCommand>,
) -> Seq<CommandView>;

/// Whether a command came back from a channel, which happens only once its receiver is gone.
pub uninterp spec fn command_came_back(
    sender: tokio::sync::mpsc::UnboundedSender<ConstraintPoolCommand>,
) -> bool;

/// Whether a receiver is the other end of the channel that a sender sends into.
pub uninterp spec fn receives_from(
    receiver: tokio::sync::mpsc::UnboundedReceiver<ConstraintPoolCommand>,
    sender: tokio::sync::mpsc::UnboundedSender<ConstraintPoolCommand>,
) -> bool;

/// `mpsc::unbounded_channel`: both ends of one channel, that nothing was sent into, and that nothing
/// came back from.
#[verifier::external_body]
fn command_channel() -> (channel: (
    tokio::sync::mpsc::UnboundedSender<ConstraintPoolCommand>,
    tokio::sync::mpsc::UnboundedReceiver<ConstraintPoolCommand>,
))
    ensures
        sent_commands(channel.0).len() == 0,
        !command_came_back(channel.0),
        receives_from(channel.1, channel.0),
{
    tokio::sync::mpsc::unbounded_channel()
}

/// `UnboundedSender::send`: the command goes into the channel, or the receiver is gone and it comes
/// back. Which of the two it is is up to the receiver; a channel is never opened again, so once a
/// command came back, every later one does. The sender goes on sending into the same channel.
#[verifier::external_body]
fn send_command(
    sender: &mut tokio::sync::mpsc::UnboundedSender<ConstraintPoolCommand>,
    command: ConstraintPoolCommand,
) -> (ok: bool)
    ensures
        sent_commands(*final(sender)) == (if ok {
            sent_commands(*old(sender)).push(command@)
        } else {
            sent_commands(*old(sender))
        }),
        command_came_back(*final(sender)) == (command_came_back(*old(sender)) || !ok),
        command_came_back(*old(sender)) ==> !ok,
        (forall|receiver: tokio::sync::mpsc::UnboundedReceiver<ConstraintPoolCommand>| #[trigger]
            receives_from(receiver, *final(sender)) == receives_from(receiver, *old(sender))),
{
    sender.send(command).is_ok()
}

/// `UnboundedSender::is_closed`: whether the receiver is gone, which is up to the receiver. It is
/// once a command came back.
#[verifier::external_body]
fn channel_is_closed(
    sender: &tokio::sync::mpsc::UnboundedSender<ConstraintPoolCommand>,
) -> (closed: bool)
    ensures
        command_came_back(*sender) ==> closed,
{
    sender.is_closed()
}

/// Channel-backed adapter implementing `ConstraintSink`.
#[derive(Debug)]
pub struct ConstraintSender2ConstraintSink {
    sender: tokio::sync::mpsc::UnboundedSender<ConstraintPoolCommand>,
}

impl ConstraintSender2ConstraintSink {
    /// The commands that went into the channel, oldest first.
    pub closed spec fn sent(&self) -> Seq<CommandView> {
        sent_commands(self.sender)
    }

    /// Whether a command came back from the channel, so that its receiver is known to be gone.
    pub closed spec fn refused(&self) -> bool {
        command_came_back(self.sender)
    }

    /// Whether what goes into the channel comes out at this receiver.
    pub closed spec fn feeds(
        &self,
        receiver: tokio::sync::mpsc::UnboundedReceiver<ConstraintPoolCommand>,
    ) -> bool {
        receives_from(receiver, self.sender)
    }

    /// Returns the sender (implements `ConstraintSink`) and the receiver to poll.
    pub fn new() -> (channel: (
        Self,
        tokio::sync::mpsc::UnboundedReceiver<ConstraintPoolCommand>,
    ))
        ensures
            channel.0.sent() == Seq::<CommandView>::empty(),
            !channel.0.refused(),
            channel.0.feeds(channel.1),
    {
        let (sender, receiver) = command_channel();
        (ConstraintSender2ConstraintSink { sender }, receiver)
    }
}

impl ConstraintSink for ConstraintSender2ConstraintSink {
    /// A command goes into the channel and is taken, or it comes back and is refused; after that,
    /// every command is. The channel stays the same one.
    open spec fn takes(self, command: CommandView, after: Self, ok: bool) -> bool {
        &&& after.sent() == if ok {
            self.sent().push(command)
        } else {
            self.sent()
        }
        &&& after.refused() == (self.refused() || !ok)
        &&& self.refused() ==> !ok
        &&& forall|receiver: tokio::sync::mpsc::UnboundedReceiver<ConstraintPoolCommand>| #[trigger]
            after.feeds(receiver) == self.feeds(receiver)
    }

    /// A channel that refused a command is not alive. Before that, the receiver may be there or
    /// gone.
    open spec fn answers(self, alive: bool) -> bool {
        self.refused() ==> !alive
    }

    fn insert_constraint(&mut self, constraints: ConstraintsMessage) -> (ok: bool) {
        send_command(&mut self.sender, ConstraintPoolCommand::Insert(constraints))
    }

    fn remove_constraints_for_slot(&mut self, slot: u64) -> (ok: bool) {
        send_command(&mut self.sender, ConstraintPoolCommand::RemoveSlot(slot))
    }

    fn is_alive(&self) -> (alive: bool) {
        !channel_is_closed(&self.sender)
    }
}

/// A command is seen as what it is: the message that it inserts, or the slot that it removes.
pub proof fn command_view_tells_the_command(command: ConstraintPoolCommand)
    ensures
        match command {
            ConstraintPoolCommand::Insert(message) => {
                &&& command@ matches CommandView::Insert(seen)
                &&& seen == message@
            },
            ConstraintPoolCommand::RemoveSlot(slot) => {
                &&& command@ matches CommandView::RemoveSlot(seen)
                &&& seen == slot
            },
        },
{
}

/// What a channel takes stands last among what was sent into it, and what it refuses is not sent.
/// Once it has refused a command it refuses every later one, and is not alive.
pub proof fn refusal_is_final(
    before: ConstraintSender2ConstraintSink,
    command: CommandView,
    after: ConstraintSender2ConstraintSink,
    ok: bool,
    next: CommandView,
    last: ConstraintSender2ConstraintSink,
    next_ok: bool,
)
    requires
        before.takes(command, after, ok),
        after.takes(next, last, next_ok),
    ensures
        ok ==> after.sent().len() == before.sent().len() + 1 && after.sent().last() == command
            && after.sent().drop_last() == before.sent(),
        !ok ==> after.sent() == before.sent() && after.refused() && !next_ok && !after.answers(true),
        ok ==> !before.refused() && !after.refused(),
{
    if ok {
        assert(after.sent().drop_last() =~= before.sent());
    }
}

} // verus!
