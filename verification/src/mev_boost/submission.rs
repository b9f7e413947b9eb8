//! Block submissions, as far as merging and proving read them.

use crate::primitives::bytes::{Address, B256};
use vstd::prelude::*;

verus! {

/// The execution payload of a submitted block.
#[derive(Debug, Clone)]
pub struct ExecutionPayload {
    pub fee_recipient: Address,
    pub block_hash: B256,
    /// EIP-2718 encoded transactions
    pub transactions: Vec<Vec<u8>>,
}

/// A block submission, by the fork that the block belongs to.
#[derive(Debug, Clone)]
pub enum SubmitBlockRequest {
    Capella(ExecutionPayload),
    Deneb(ExecutionPayload),
    Electra(ExecutionPayload),
    Fulu(ExecutionPayload),
}

impl SubmitBlockRequest {
    /// The execution payload, whatever the fork.
    pub open spec fn payload(&self) -> ExecutionPayload {
        match self {
            SubmitBlockRequest::Capella(payload) => *payload,
            SubmitBlockRequest::Deneb(payload) => *payload,
            SubmitBlockRequest::Electra(payload) => *payload,
            SubmitBlockRequest::Fulu(payload) => *payload,
        }
    }

    /// The execution payload, whatever the fork.
    pub fn execution_payload(&self) -> (payload: &ExecutionPayload)
        ensures
            *payload == self.payload(),
    {
        match self {
            SubmitBlockRequest::Capella(payload) => payload,
            SubmitBlockRequest::Deneb(payload) => payload,
            SubmitBlockRequest::Electra(payload) => payload,
            SubmitBlockRequest::Fulu(payload) => payload,
        }
    }
}

/// The payload of a submission is the one that it was made with, whatever the fork.
pub proof fn payload_is_the_submitted_one(payload: ExecutionPayload)
    ensures
        SubmitBlockRequest::Capella(payload).payload() == payload,
        SubmitBlockRequest::Deneb(payload).payload() == payload,
        SubmitBlockRequest::Electra(payload).payload() == payload,
        SubmitBlockRequest::Fulu(payload).payload() == payload,
{
}

} // verus!
