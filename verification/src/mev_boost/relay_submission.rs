//! How a block is submitted to a relay, with or without merging data.

use crate::mev_boost::block_merging::{
    all_transaction_orders, extract_submission_metadata, BlockMergingData,
    SignedBidSubmissionWithMergingData,
};
use crate::mev_boost::submission::SubmitBlockRequest;
use vstd::prelude::*;

verus! {

/// How a submission is encoded.
#[derive(Debug, Clone, Copy, PartialEq, Eq, Structural)]
pub enum Encoding {
    Json,
    Ssz,
}

/// What a relay is configured to take.
#[derive(Debug, Clone, Copy, PartialEq, Eq, Structural)]
pub struct RelayConfig {
    pub supports_block_merging: bool,
    /// Encoding of submissions without merging data
    pub encoding: Encoding,
}

/// What is submitted.
#[derive(Debug, Clone)]
pub enum SubmissionBody {
    Plain(SubmitBlockRequest),
    WithMergingData(SignedBidSubmissionWithMergingData),
}

/// A submission that is ready to be sent.
#[derive(Debug, Clone)]
pub struct PreparedSubmission {
    pub body: SubmissionBody,
    /// Whether the header `x-mergeable: true` is added
    pub x_mergeable: bool,
    pub encoding: Encoding,
}

/// Prepares a submission for a relay. Where the relay supports block merging, the submission is
/// wrapped with merging data that marks all transactions as mergeable, the header is added, and
/// the encoding is JSON, since SSZ is not supported for merging payloads.
pub fn prepare_submission(request: SubmitBlockRequest, relay: RelayConfig) -> (prepared:
    PreparedSubmission)
    ensures
        prepared.x_mergeable == relay.supports_block_merging,
        relay.supports_block_merging ==> {
            &&& prepared.encoding == Encoding::Json
            &&& prepared.body matches SubmissionBody::WithMergingData(wrapped)
            &&& wrapped.submission == request
            &&& wrapped.merging_data.allow_appending
            &&& wrapped.merging_data.builder_address == request.payload().fee_recipient
            &&& wrapped.merging_data.merge_orders@ == all_transaction_orders(
                request.payload().transactions@.len(),
            )
        },
        !relay.supports_block_merging ==> {
            &&& prepared.encoding == relay.encoding
            &&& prepared.body == SubmissionBody::Plain(request)
        },
{
    if relay.supports_block_merging {
        let (builder_address, transaction_count) = extract_submission_metadata(&request);
        let merging_data = BlockMergingData::for_all_transactions(
            builder_address,
            transaction_count,
        );
        PreparedSubmission {
            body: SubmissionBody::WithMergingData(
                SignedBidSubmissionWithMergingData { submission: request, merging_data },
            ),
            x_mergeable: true,
            encoding: Encoding::Json,
        }
    } else {
        PreparedSubmission {
            body: SubmissionBody::Plain(request),
            x_mergeable: false,
            encoding: relay.encoding,
        }
    }
}

} // verus!
