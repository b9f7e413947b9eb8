//! The record that is kept of a block while it is built.

use crate::block_output::constraint_prover::{
    no_proofs, ConstraintProofs, ConstraintProofsView, InclusionProofView,
};
use crate::building::constraint_proofs::hash_values;
use crate::building::partial_block::BlockSpace;
use crate::primitives::bytes::{Address, B256};
use crate::primitives::clock::{Nanos, UtcTime};
use crate::primitives::numbers::{I256, U256};
use vstd::prelude::*;

verus! {

/// Number by which a block under construction is known.
pub type BuiltBlockId = u64;

/// What an order is known by.
#[derive(Debug, Clone, Copy, PartialEq, Eq)]
pub enum OrderId {
    /// A single transaction, by its hash
    Tx(B256),
    /// A bundle, by its uuid
    Bundle(u128),
    /// A share bundle, by its hash
    ShareBundle(B256),
}

/// A transaction of an order.
#[derive(Debug, Clone, Copy, PartialEq, Eq)]
pub struct TxInfo {
    pub hash: B256,
    pub signer: Address,
    pub to: Option<Address>,
}

/// What simulating an order showed it to be worth.
#[derive(Debug, Clone, Copy, PartialEq, Eq)]
pub struct SimValue {
    pub coinbase_profit: U256,
    pub gas_used: u64,
    pub mev_gas_price: U256,
}

/// An order with its transactions, simulated at the top of the block.
#[derive(Debug, Clone)]
pub struct SimulatedOrder {
    pub id: OrderId,
    pub sim_value: SimValue,
    pub txs: Vec<TxInfo>,
}

/// What became of an order that was executed.
#[derive(Debug, Clone, Copy, PartialEq, Eq)]
pub struct ExecutionResult {
    /// Order that was executed
    pub order: OrderId,
    /// What the coinbase gained
    pub coinbase_profit: U256,
    /// Room that it takes in the block
    pub space_used: BlockSpace,
    /// What it was worth in its place
    pub inplace_sim: SimValue,
}

/// The orders that were counted for a statistic.
#[derive(Debug, Clone)]
pub struct OrderStatistics {
    pub orders: Vec<OrderId>,
}

impl OrderStatistics {
    /// Statistics over no orders.
    pub fn empty() -> (statistics: Self)
        ensures
            statistics.orders@ == Seq::<OrderId>::empty(),
    {
        OrderStatistics { orders: Vec::new() }
    }

    /// A copy of the statistics.
    pub fn duplicate(&self) -> (copy: Self)
        ensures
            copy.orders@ == self.orders@,
    {
        OrderStatistics { orders: copy_all(&self.orders) }
    }
}

/// A copy of a vector.
pub(crate) fn copy_all<T: Copy>(items: &Vec<T>) -> (copy: Vec<T>)
    ensures
        copy@ == items@,
{
    let mut copy: Vec<T> = Vec::new();
    let mut i: usize = 0;
    while i < items.len()
        invariant
            i <= items@.len(),
            copy@ == items@.take(i as int),
        decreases items@.len() - i,
    {
        copy.push(items[i]);
        assert(copy@ =~= items@.take(i + 1));
        i += 1;
    }
    assert(items@.take(i as int) =~= items@);
    copy
}

/// Record of a block under construction.
#[derive(Debug, Clone)]
pub struct BuiltBlockTrace {
    pub build_block_id: BuiltBlockId,
    pub included_orders: Vec<ExecutionResult>,
    /// Accumulated coinbase delta before the payout
    pub coinbase_reward: U256,
    /// Value that the fee recipient gets
    pub bid_value: U256,
    /// How much of the bid is subsidy
    pub subsidy: I256,
    /// Maximum that the fee recipient could get
    pub true_bid_value: U256,
    pub mev_blocker_price: U256,
    pub seen_competition_bid: Option<U256>,
    /// Hashes of the constraint transactions that were appended to the block
    pub appended_constraint_txs: Vec<B256>,
    /// Inclusion proofs for all constraint transactions of the block
    pub constraint_proofs: ConstraintProofs,
    pub available_orders_statistics: OrderStatistics,
    pub considered_orders_statistics: OrderStatistics,
    pub failed_orders_statistics: OrderStatistics,
    pub orders_closed_at: UtcTime,
    pub orders_sealed_at: UtcTime,
    pub fill_time: Nanos,
    pub finalize_time: Nanos,
    pub finalize_adjust_time: Nanos,
    pub root_hash_time: Nanos,
}

/// What a `BuiltBlockTrace` records.
pub struct TraceView {
    pub build_block_id: BuiltBlockId,
    pub included_orders: Seq<ExecutionResult>,
    pub coinbase_reward: int,
    pub bid_value: int,
    pub subsidy: int,
    pub true_bid_value: int,
    pub mev_blocker_price: int,
    pub seen_competition_bid: Option<int>,
    pub appended_constraint_txs: Seq<B256>,
    pub constraint_proofs: ConstraintProofsView,
    pub available_orders: Seq<OrderId>,
    pub considered_orders: Seq<OrderId>,
    pub failed_orders: Seq<OrderId>,
    pub orders_closed_at: UtcTime,
    pub orders_sealed_at: UtcTime,
    pub fill_time: Nanos,
    pub finalize_time: Nanos,
    pub finalize_adjust_time: Nanos,
    pub root_hash_time: Nanos,
}

/// The number that is there, if one is.
pub open spec fn optional_number(n: Option<U256>) -> Option<int> {
    match n {
        Some(v) => Some(v@),
        None => None,
    }
}

impl View for BuiltBlockTrace {
    type V = TraceView;

    open spec fn view(&self) -> TraceView {
        TraceView {
            build_block_id: self.build_block_id,
            included_orders: self.included_orders@,
            coinbase_reward: self.coinbase_reward@,
            bid_value: self.bid_value@,
            subsidy: self.subsidy@,
            true_bid_value: self.true_bid_value@,
            mev_blocker_price: self.mev_blocker_price@,
            seen_competition_bid: optional_number(self.seen_competition_bid),
            appended_constraint_txs: self.appended_constraint_txs@,
            constraint_proofs: self.constraint_proofs@,
            available_orders: self.available_orders_statistics.orders@,
            considered_orders: self.considered_orders_statistics.orders@,
            failed_orders: self.failed_orders_statistics.orders@,
            orders_closed_at: self.orders_closed_at,
            orders_sealed_at: self.orders_sealed_at,
            fill_time: self.fill_time,
            finalize_time: self.finalize_time,
            finalize_adjust_time: self.finalize_adjust_time,
            root_hash_time: self.root_hash_time,
        }
    }
}

/// Two records that record the same agree in every field.
pub proof fn record_holds_every_field(a: BuiltBlockTrace, b: BuiltBlockTrace)
    requires
        a@ == b@,
    ensures
        a.build_block_id == b.build_block_id,
        a.included_orders@ == b.included_orders@,
        a.coinbase_reward@ == b.coinbase_reward@,
        a.bid_value@ == b.bid_value@,
        a.subsidy@ == b.subsidy@,
        a.true_bid_value@ == b.true_bid_value@,
        a.mev_blocker_price@ == b.mev_blocker_price@,
        a.seen_competition_bid is Some <==> b.seen_competition_bid is Some,
        a.seen_competition_bid matches Some(bid) ==> bid@ == b.seen_competition_bid->0@,
        a.appended_constraint_txs@ == b.appended_constraint_txs@,
        a.constraint_proofs@ == b.constraint_proofs@,
        a.available_orders_statistics.orders@ == b.available_orders_statistics.orders@,
        a.considered_orders_statistics.orders@ == b.considered_orders_statistics.orders@,
        a.failed_orders_statistics.orders@ == b.failed_orders_statistics.orders@,
        a.orders_closed_at == b.orders_closed_at,
        a.orders_sealed_at == b.orders_sealed_at,
        a.fill_time == b.fill_time,
        a.finalize_time == b.finalize_time,
        a.finalize_adjust_time == b.finalize_adjust_time,
        a.root_hash_time == b.root_hash_time,
{
}

/// The record of a block that was just begun, at the given time.
pub open spec fn new_trace(id: BuiltBlockId, available: Seq<OrderId>, now: UtcTime) -> TraceView {
    TraceView {
        build_block_id: id,
        included_orders: Seq::empty(),
        coinbase_reward: 0,
        bid_value: 0,
        subsidy: 0,
        true_bid_value: 0,
        mev_blocker_price: 0,
        seen_competition_bid: None,
        appended_constraint_txs: Seq::empty(),
        constraint_proofs: no_proofs(),
        available_orders: available,
        considered_orders: Seq::empty(),
        failed_orders: Seq::empty(),
        orders_closed_at: now,
        orders_sealed_at: now,
        fill_time: 0,
        finalize_time: 0,
        finalize_adjust_time: 0,
        root_hash_time: 0,
    }
}

impl BuiltBlockTrace {
    /// The record of a block that was begun at the given time, with the orders that are available
    /// for it.
    pub fn new(id: BuiltBlockId, available: OrderStatistics, now: UtcTime) -> (trace: Self)
        ensures
            trace@ == new_trace(id, available.orders@, now),
    {
        BuiltBlockTrace {
            build_block_id: id,
            included_orders: Vec::new(),
            coinbase_reward: U256::zero(),
            bid_value: U256::zero(),
            subsidy: I256 { limbs: [0, 0, 0, 0] },
            true_bid_value: U256::zero(),
            mev_blocker_price: U256::zero(),
            seen_competition_bid: None,
            appended_constraint_txs: Vec::new(),
            constraint_proofs: ConstraintProofs::default(),
            available_orders_statistics: available,
            considered_orders_statistics: OrderStatistics::empty(),
            failed_orders_statistics: OrderStatistics::empty(),
            orders_closed_at: now,
            orders_sealed_at: now,
            fill_time: 0,
            finalize_time: 0,
            finalize_adjust_time: 0,
            root_hash_time: 0,
        }
    }

    /// The hashes of the constraint transactions that the block was proved to hold.
    pub fn constraint_tx_hashes(&self) -> (hashes: Vec<B256>)
        ensures
            hash_values(hashes@) == self@.constraint_proofs.proofs.map_values(
                |proof: InclusionProofView| proof.tx_hash,
            ),
    {
        let proofs = &self.constraint_proofs.proofs;
        let ghost wanted = self@.constraint_proofs.proofs.map_values(
            |proof: InclusionProofView| proof.tx_hash,
        );
        let mut hashes: Vec<B256> = Vec::new();
        let mut i: usize = 0;
        while i < proofs.len()
            invariant
                i <= proofs@.len(),
                proofs@.len() == wanted.len(),
                forall|k: int| 0 <= k < wanted.len() ==> wanted[k] == proofs@[k].tx_hash@,
                hashes@.len() == i,
                forall|k: int| 0 <= k < i ==> (#[trigger] hashes@[k])@ == wanted[k],
            decreases proofs@.len() - i,
        {
            hashes.push(proofs[i].tx_hash);
            i += 1;
        }
        assert(hash_values(hashes@) =~= wanted);
        hashes
    }

    /// A copy of the record.
    pub fn duplicate(&self) -> (copy: Self)
        ensures
            copy@ == self@,
            copy.build_block_id == self.build_block_id,
            copy.included_orders@ == self.included_orders@,
            copy.coinbase_reward == self.coinbase_reward,
            copy.bid_value == self.bid_value,
            copy.subsidy == self.subsidy,
            copy.true_bid_value == self.true_bid_value,
            copy.mev_blocker_price == self.mev_blocker_price,
            copy.seen_competition_bid == self.seen_competition_bid,
            copy.appended_constraint_txs@ == self.appended_constraint_txs@,
            copy.constraint_proofs@ == self.constraint_proofs@,
            copy.available_orders_statistics.orders@ == self.available_orders_statistics.orders@,
            copy.considered_orders_statistics.orders@ == self.considered_orders_statistics.orders@,
            copy.failed_orders_statistics.orders@ == self.failed_orders_statistics.orders@,
            copy.orders_closed_at == self.orders_closed_at,
            copy.orders_sealed_at == self.orders_sealed_at,
            copy.fill_time == self.fill_time,
            copy.finalize_time == self.finalize_time,
            copy.finalize_adjust_time == self.finalize_adjust_time,
            copy.root_hash_time == self.root_hash_time,
    {
        BuiltBlockTrace {
            build_block_id: self.build_block_id,
            included_orders: copy_all(&self.included_orders),
            coinbase_reward: self.coinbase_reward,
            bid_value: self.bid_value,
            subsidy: self.subsidy,
            true_bid_value: self.true_bid_value,
            mev_blocker_price: self.mev_blocker_price,
            seen_competition_bid: self.seen_competition_bid,
            appended_constraint_txs: copy_all(&self.appended_constraint_txs),
            constraint_proofs: self.constraint_proofs.duplicate(),
            available_orders_statistics: self.available_orders_statistics.duplicate(),
            considered_orders_statistics: self.considered_orders_statistics.duplicate(),
            failed_orders_statistics: self.failed_orders_statistics.duplicate(),
            orders_closed_at: self.orders_closed_at,
            orders_sealed_at: self.orders_sealed_at,
            fill_time: self.fill_time,
            finalize_time: self.finalize_time,
            finalize_adjust_time: self.finalize_adjust_time,
            root_hash_time: self.root_hash_time,
        }
    }
}

} // verus!
