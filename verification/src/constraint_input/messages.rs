//! Constraint messages of the constraints API, as far as they are read here.

use crate::primitives::bytes::copy_bytes;
use vstd::prelude::*;

verus! {

/// A constraint: an encoded inclusion payload.
#[derive(Debug, Clone)]
pub struct Constraint {
    pub payload: Vec<u8>,
}

/// The constraints of a slot.
#[derive(Debug, Clone)]
pub struct ConstraintsMessage {
    /// Target slot
    pub slot: u64,
    pub constraints: Vec<Constraint>,
}

/// A message that was signed. The signature is not looked at.
#[derive(Debug, Clone)]
pub struct SignedConstraints {
    pub message: ConstraintsMessage,
}

/// What a `ConstraintsMessage` states.
pub struct ConstraintsMessageView {
    pub slot: u64,
    pub payloads: Seq<Seq<u8>>,
}

/// The payloads of constraints.
pub open spec fn payloads(constraints: Seq<Constraint>) -> Seq<Seq<u8>> {
    constraints.map_values(|c: Constraint| c.payload@)
}

impl View for ConstraintsMessage {
    type V = ConstraintsMessageView;

    open spec fn view(&self) -> ConstraintsMessageView {
        ConstraintsMessageView { slot: self.slot, payloads: payloads(self.constraints@) }
    }
}

/// The message that stands for no constraints.
pub open spec fn empty_message() -> ConstraintsMessageView {
    ConstraintsMessageView { slot: 0, payloads: Seq::empty() }
}

impl ConstraintsMessage {
    /// A copy of the message.
    pub fn duplicate(&self) -> (copy: ConstraintsMessage)
        ensures
            copy@ == self@,
            copy.slot == self.slot,
            copy.constraints@.len() == self.constraints@.len(),
            forall|i: int|
                0 <= i < self.constraints@.len() ==> (#[trigger] copy.constraints@[i]).payload@
                    == self.constraints@[i].payload@,
    {
        let mut constraints: Vec<Constraint> = Vec::new();
        let mut i: usize = 0;
        while i < self.constraints.len()
            invariant
                i <= self.constraints@.len(),
                constraints@.len() == i,
                forall|k: int|
                    0 <= k < i ==> (#[trigger] constraints@[k]).payload@
                        == self.constraints@[k].payload@,
            decreases self.constraints@.len() - i,
        {
            constraints.push(
                Constraint { payload: copy_bytes(self.constraints[i].payload.as_slice()) },
            );
            i += 1;
        }
        assert(payloads(constraints@) =~= payloads(self.constraints@));
        ConstraintsMessage { slot: self.slot, constraints }
    }
}

impl Default for ConstraintsMessage {
    fn default() -> (message: Self)
        ensures
            message@ == empty_message(),
            message.slot == 0,
            message.constraints@.len() == 0,
    {
        let message = ConstraintsMessage { slot: 0, constraints: Vec::new() };
        assert(message@.payloads =~= Seq::empty());
        message
    }
}

/// What a message is seen to state is its slot and the payloads of its constraints, all of them and
/// in their order.
pub proof fn message_view_holds_every_constraint(message: ConstraintsMessage, i: int)
    ensures
        message@.slot == message.slot,
        message@.payloads.len() == message.constraints@.len(),
        0 <= i < message.constraints@.len() ==> message@.payloads[i]
            == message.constraints@[i].payload@,
{
}

} // verus!
