//! Merging metadata that goes to relays along with a block.

use crate::mev_boost::submission::SubmitBlockRequest;
use crate::primitives::bytes::Address;
use vstd::prelude::*;

verus! {

/// Simple wrapper for helix block merging
#[derive(Debug, Clone)]
pub struct SignedBidSubmissionWithMergingData {
    pub submission: SubmitBlockRequest,
    pub merging_data: BlockMergingData,
}

#[derive(Debug, Clone)]
pub enum Order {
    Tx(TransactionOrder),
    Bundle(BundleOrder),
}

/// Vector of transaction indices.
pub type TxIndices = Vec<usize>;

#[derive(Debug, Clone, Copy, PartialEq, Eq, Structural)]
pub struct TransactionOrder {
    /// Index into block.transactions
    pub index: usize,
    /// If the transaction is allowed to revert
    pub can_revert: bool,
}

/// References a bundle of transactions via their indices.
/// All indices are for the block the transactions come from.
#[derive(Debug, Clone)]
pub struct BundleOrder {
    /// Signals txs that are part of the bundle and ordering of txs.
    /// Indices are for the block body the transactions come from.
    pub txs: TxIndices,
    /// Txs that may revert.
    /// Indices are for the [txs](Self::txs) array.
    pub reverting_txs: TxIndices,
    /// Txs that are allowed to be omitted, but not revert.
    /// Indices are for the [txs](Self::txs) array.
    pub dropping_txs: TxIndices,
}

#[derive(Debug, Clone)]
pub struct BlockMergingData {
    pub allow_appending: bool,
    pub builder_address: Address,
    pub merge_orders: Vec<Order>,
}

/// One order for each of `count` transactions, in block order, each allowed to revert.
pub open spec fn all_transaction_orders(count: nat) -> Seq<Order> {
    Seq::new(
        count,
        |i: int| Order::Tx(TransactionOrder { index: i as usize, can_revert: true }),
    )
}

impl BlockMergingData {
    pub fn is_default(&self) -> (default: bool)
        ensures
            default == (!self.allow_appending && self.merge_orders@.len() == 0),
    {
        !self.allow_appending && self.merge_orders.is_empty()
    }

    /// Generate block merging data for all transactions in the block.
    /// All transactions are marked as available for merging and can revert,
    /// giving the relay maximum flexibility for block merging.
    pub fn for_all_transactions(builder_address: Address, transaction_count: usize) -> (data: Self)
        ensures
            data.allow_appending,
            data.builder_address == builder_address,
            data.merge_orders@ == all_transaction_orders(transaction_count as nat),
    {
        let mut merge_orders: Vec<Order> = Vec::new();
        let mut index: usize = 0;
        while index < transaction_count
            invariant
                index <= transaction_count,
                merge_orders@ == all_transaction_orders(index as nat),
            decreases transaction_count - index,
        {
            merge_orders.push(
                // Allow revert for maximum relay flexibility
                Order::Tx(TransactionOrder { index, can_revert: true }),
            );
            assert(merge_orders@ =~= all_transaction_orders((index + 1) as nat));
            index += 1;
        }
        BlockMergingData { allow_appending: true, builder_address, merge_orders }
    }
}

impl Default for BlockMergingData {
    fn default() -> (data: Self)
        ensures
            !data.allow_appending,
            data.builder_address@ == Seq::new(20, |i: int| 0u8),
            data.merge_orders@.len() == 0,
    {
        let builder_address: Address = [0u8; 20];
        assert(builder_address@ =~= Seq::new(20, |i: int| 0u8));
        BlockMergingData { allow_appending: false, builder_address, merge_orders: Vec::new() }
    }
}

/// Extract fee recipient and transaction count from SubmitBlockRequest
/// Centralized logic to avoid duplication between SSZ and JSON paths
pub fn extract_submission_metadata(request: &SubmitBlockRequest) -> (metadata: (Address, usize))
    ensures
        metadata.0 == request.payload().fee_recipient,
        metadata.1 == request.payload().transactions@.len(),
{
    let payload = request.execution_payload();
    (payload.fee_recipient, payload.transactions.len())
}

/// The merging data made from a submission's metadata refers to each of its transactions exactly
/// once, and to nothing else.
pub proof fn every_transaction_is_mergeable(request: SubmitBlockRequest, index: usize)
    ensures
        ({
            let count = request.payload().transactions@.len();
            let orders = all_transaction_orders(count);
            &&& index < count ==> orders[index as int] == Order::Tx(
                TransactionOrder { index, can_revert: true },
            )
            &&& forall|i: int|
                0 <= i < orders.len() && (#[trigger] orders[i]) == Order::Tx(
                    TransactionOrder { index, can_revert: true },
                ) ==> i == index
            &&& orders.len() == count
        }),
{
    let count = request.payload().transactions@.len();
    vstd::std_specs::vec::axiom_spec_len(&request.payload().transactions);
    let orders = all_transaction_orders(count);
    assert forall|i: int|
        0 <= i < orders.len() && (#[trigger] orders[i]) == Order::Tx(
            TransactionOrder { index, can_revert: true },
        ) implies i == index by {
        assert(count <= usize::MAX);
        assert(orders[i] == Order::Tx(TransactionOrder { index: i as usize, can_revert: true }));
    }
}

} // verus!
