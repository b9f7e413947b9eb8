//! What a block under construction holds, and what it is built for.

use crate::building::transaction::TransactionSigned;
use crate::constraint_input::messages::{payloads, Constraint};
use crate::primitives::bytes::{copy_bytes, same_hash, Address, B256};
use crate::primitives::numbers::{I256, U256};
use vstd::prelude::*;

verus! {

/// Room in a block.
#[derive(Debug, Clone, Copy, PartialEq, Eq, Structural)]
pub struct BlockSpace {
    pub gas: u64,
    pub rlp_length: usize,
    pub blob_gas: u64,
}

/// No room at all.
pub open spec fn no_space() -> BlockSpace {
    BlockSpace { gas: 0, rlp_length: 0, blob_gas: 0 }
}

/// The room that two things take together. What does not fit in a machine word counts as the
/// largest one.
pub open spec fn space_sum(a: BlockSpace, b: BlockSpace) -> BlockSpace {
    BlockSpace {
        gas: if a.gas + b.gas <= u64::MAX {
            (a.gas + b.gas) as u64
        } else {
            u64::MAX
        },
        rlp_length: if a.rlp_length + b.rlp_length <= usize::MAX {
            (a.rlp_length + b.rlp_length) as usize
        } else {
            usize::MAX
        },
        blob_gas: if a.blob_gas + b.blob_gas <= u64::MAX {
            (a.blob_gas + b.blob_gas) as u64
        } else {
            u64::MAX
        },
    }
}

impl BlockSpace {
    /// No room at all.
    pub fn zero() -> (space: Self)
        ensures
            space == no_space(),
    {
        BlockSpace { gas: 0, rlp_length: 0, blob_gas: 0 }
    }

    /// The room that two things take together.
    pub fn plus(self, other: BlockSpace) -> (sum: Self)
        ensures
            sum == space_sum(self, other),
    {
        BlockSpace {
            gas: self.gas.saturating_add(other.gas),
            rlp_length: self.rlp_length.saturating_add(other.rlp_length),
            blob_gas: self.blob_gas.saturating_add(other.blob_gas),
        }
    }
}

/// A transaction that was executed in the block.
#[derive(Debug, Clone)]
pub struct TransactionExecutionInfo {
    pub tx: TransactionSigned,
    /// What the coinbase gained by it, or lost
    pub coinbase_profit: I256,
    /// The room that it takes
    pub space_used: BlockSpace,
}

/// The transactions that were executed so far, and what the coinbase gained.
#[derive(Debug, Clone)]
pub struct PartialBlock {
    pub coinbase_profit: U256,
    /// The room that was used so far
    pub space_used: BlockSpace,
    /// The room that is kept free for the payout
    pub space_reserved: BlockSpace,
    pub executed_tx_infos: Vec<TransactionExecutionInfo>,
}

/// An executed transaction: hash, RLP encoding, what the coinbase gained and the room it takes.
pub struct ExecutedView {
    pub hash: Seq<u8>,
    pub rlp: Seq<u8>,
    pub coinbase_profit: int,
    pub space_used: BlockSpace,
}

impl View for TransactionExecutionInfo {
    type V = ExecutedView;

    open spec fn view(&self) -> ExecutedView {
        ExecutedView {
            hash: self.tx.hash@,
            rlp: self.tx.rlp@,
            coinbase_profit: self.coinbase_profit@,
            space_used: self.space_used,
        }
    }
}

/// What a `PartialBlock` holds.
pub struct PartialBlockView {
    pub coinbase_profit: int,
    pub space_used: BlockSpace,
    pub space_reserved: BlockSpace,
    pub transactions: Seq<ExecutedView>,
}

/// The transactions of a list of executed ones.
pub open spec fn executed_transactions(infos: Seq<TransactionExecutionInfo>) -> Seq<
    ExecutedView,
> {
    infos.map_values(|info: TransactionExecutionInfo| info@)
}

impl PartialBlockView {
    /// The hashes of the transactions, in block order.
    pub open spec fn hashes(&self) -> Seq<Seq<u8>> {
        self.transactions.map_values(|tx: ExecutedView| tx.hash)
    }

    /// The RLP encodings of the transactions, in block order.
    pub open spec fn values(&self) -> Seq<Seq<u8>> {
        self.transactions.map_values(|tx: ExecutedView| tx.rlp)
    }
}

impl View for PartialBlock {
    type V = PartialBlockView;

    open spec fn view(&self) -> PartialBlockView {
        PartialBlockView {
            coinbase_profit: self.coinbase_profit@,
            space_used: self.space_used,
            space_reserved: self.space_reserved,
            transactions: executed_transactions(self.executed_tx_infos@),
        }
    }
}

impl PartialBlock {
    /// The transactions have RLP encodings.
    pub open spec fn wf(&self) -> bool {
        forall|i: int|
            0 <= i < self.executed_tx_infos@.len() ==> (
            #[trigger] self.executed_tx_infos@[i]).tx.wf()
    }

    /// A block without transactions, and with nothing reserved.
    pub fn new() -> (block: Self)
        ensures
            block.wf(),
            block@ == (PartialBlockView {
                coinbase_profit: 0,
                space_used: no_space(),
                space_reserved: no_space(),
                transactions: Seq::empty(),
            }),
    {
        let block = PartialBlock {
            coinbase_profit: U256::zero(),
            space_used: BlockSpace::zero(),
            space_reserved: BlockSpace::zero(),
            executed_tx_infos: Vec::new(),
        };
        assert(block@.transactions =~= Seq::<ExecutedView>::empty());
        block
    }

    /// Keeps room free for the payout.
    pub fn reserve_block_space(&mut self, space: BlockSpace)
        ensures
            final(self)@ == (PartialBlockView { space_reserved: space, ..old(self)@ }),
            old(self).wf() ==> final(self).wf(),
    {
        self.space_reserved = space;
    }

    /// Whether a transaction is in the block.
    pub fn contains_transaction(&self, hash: &B256) -> (found: bool)
        ensures
            found == self@.hashes().contains(hash@),
    {
        let mut i: usize = 0;
        while i < self.executed_tx_infos.len()
            invariant
                i <= self.executed_tx_infos@.len(),
                forall|k: int| 0 <= k < i ==> self@.hashes()[k] != hash@,
            decreases self.executed_tx_infos@.len() - i,
        {
            if same_hash(&self.executed_tx_infos[i].tx.hash, hash) {
                assert(self@.hashes()[i as int] == hash@);
                return true;
            }
            i += 1;
        }
        false
    }

    /// A copy of the block.
    pub fn duplicate(&self) -> (copy: Self)
        ensures
            copy@ == self@,
            copy.coinbase_profit == self.coinbase_profit,
            copy.space_used == self.space_used,
            copy.space_reserved == self.space_reserved,
            copy.executed_tx_infos@.len() == self.executed_tx_infos@.len(),
            forall|i: int|
                0 <= i < self.executed_tx_infos@.len() ==> {
                    let info = self.executed_tx_infos@[i];
                    &&& (#[trigger] copy.executed_tx_infos@[i]).tx.hash == info.tx.hash
                    &&& copy.executed_tx_infos@[i].tx.rlp@ == info.tx.rlp@
                    &&& copy.executed_tx_infos@[i].coinbase_profit == info.coinbase_profit
                    &&& copy.executed_tx_infos@[i].space_used == info.space_used
                },
            self.wf() ==> copy.wf(),
    {
        let mut infos: Vec<TransactionExecutionInfo> = Vec::new();
        let mut i: usize = 0;
        while i < self.executed_tx_infos.len()
            invariant
                i <= self.executed_tx_infos@.len(),
                infos@.len() == i,
                forall|k: int|
                    0 <= k < i ==> {
                        let info = self.executed_tx_infos@[k];
                        &&& (#[trigger] infos@[k])@ == info@
                        &&& infos@[k].tx.hash == info.tx.hash
                        &&& infos@[k].tx.rlp@ == info.tx.rlp@
                        &&& infos@[k].coinbase_profit == info.coinbase_profit
                        &&& infos@[k].space_used == info.space_used
                    },
            decreases self.executed_tx_infos@.len() - i,
        {
            let info = &self.executed_tx_infos[i];
            infos.push(
                TransactionExecutionInfo {
                    tx: TransactionSigned {
                        hash: info.tx.hash,
                        rlp: copy_bytes(info.tx.rlp.as_slice()),
                    },
                    coinbase_profit: info.coinbase_profit,
                    space_used: info.space_used,
                },
            );
            i += 1;
        }
        let copy = PartialBlock {
            coinbase_profit: self.coinbase_profit,
            space_used: self.space_used,
            space_reserved: self.space_reserved,
            executed_tx_infos: infos,
        };
        assert(copy@.transactions =~= self@.transactions);
        proof {
            assert forall|k: int| 0 <= k < infos@.len() && self.wf() implies (
            #[trigger] copy.executed_tx_infos@[k]).tx.wf() by {
                assert(self.executed_tx_infos@[k].tx.wf());
                assert(infos@[k]@ == self.executed_tx_infos@[k]@);
            }
        }
        copy
    }

    /// The transactions of the block, in order.
    pub fn transactions(&self) -> (transactions: Vec<TransactionSigned>)
        requires
            self.wf(),
        ensures
            transactions@.len() == self@.transactions.len(),
            forall|k: int|
                0 <= k < transactions@.len() ==> {
                    &&& (#[trigger] transactions@[k]).wf()
                    &&& transactions@[k].hash@ == self@.transactions[k].hash
                    &&& transactions@[k].rlp@ == self@.transactions[k].rlp
                },
    {
        let mut transactions: Vec<TransactionSigned> = Vec::new();
        let mut i: usize = 0;
        while i < self.executed_tx_infos.len()
            invariant
                self.wf(),
                i <= self.executed_tx_infos@.len(),
                transactions@.len() == i,
                forall|k: int|
                    0 <= k < i ==> {
                        &&& (#[trigger] transactions@[k]).wf()
                        &&& transactions@[k].hash@ == self@.transactions[k].hash
                        &&& transactions@[k].rlp@ == self@.transactions[k].rlp
                    },
            decreases self.executed_tx_infos@.len() - i,
        {
            let info = &self.executed_tx_infos[i];
            assert(self.executed_tx_infos@[i as int].tx.wf());
            transactions.push(
                TransactionSigned { hash: info.tx.hash, rlp: copy_bytes(info.tx.rlp.as_slice()) },
            );
            i += 1;
        }
        transactions
    }
}

/// What a block is seen to hold is what its transactions are, in their order, each with its hash,
/// encoding, profit and room; and a transaction is in the block where its hash is that of one of
/// them.
pub proof fn block_view_holds_every_transaction(block: PartialBlock, i: int)
    ensures
        block@.coinbase_profit == block.coinbase_profit@,
        block@.space_used == block.space_used,
        block@.space_reserved == block.space_reserved,
        block@.transactions.len() == block.executed_tx_infos@.len(),
        block@.hashes().len() == block.executed_tx_infos@.len(),
        block@.values().len() == block.executed_tx_infos@.len(),
        0 <= i < block.executed_tx_infos@.len() ==> {
            let info = block.executed_tx_infos@[i];
            &&& block@.transactions[i].hash == info.tx.hash@
            &&& block@.transactions[i].rlp == info.tx.rlp@
            &&& block@.transactions[i].coinbase_profit == info.coinbase_profit@
            &&& block@.transactions[i].space_used == info.space_used
            &&& block@.hashes()[i] == info.tx.hash@
            &&& block@.values()[i] == info.tx.rlp@
        },
{
}

/// What a context is seen to say is what its fields are; its constraints stand in their order.
pub proof fn context_view_holds_every_constraint(context: BlockBuildingContext, i: int)
    ensures
        context@.block == context.block,
        context@.suggested_fee_recipient == context.suggested_fee_recipient,
        context@.mev_blocker_price == context.mev_blocker_price@,
        context@.constraints.len() == context.constraints@.len(),
        0 <= i < context.constraints@.len() ==> context@.constraints[i]
            == context.constraints@[i].payload@,
{
}

/// What a block is built for.
#[derive(Debug, Clone)]
pub struct BlockBuildingContext {
    /// Block number
    pub block: u64,
    pub suggested_fee_recipient: Address,
    pub mev_blocker_price: U256,
    /// Constraints of the slot that the block is for
    pub constraints: Vec<Constraint>,
}

/// What a `BlockBuildingContext` says.
pub struct ContextView {
    pub block: u64,
    pub suggested_fee_recipient: Address,
    pub mev_blocker_price: int,
    pub constraints: Seq<Seq<u8>>,
}

impl View for BlockBuildingContext {
    type V = ContextView;

    open spec fn view(&self) -> ContextView {
        ContextView {
            block: self.block,
            suggested_fee_recipient: self.suggested_fee_recipient,
            mev_blocker_price: self.mev_blocker_price@,
            constraints: payloads(self.constraints@),
        }
    }
}

impl BlockBuildingContext {
    /// A copy of the context.
    pub fn duplicate(&self) -> (copy: Self)
        ensures
            copy@ == self@,
            copy.block == self.block,
            copy.suggested_fee_recipient == self.suggested_fee_recipient,
            copy.mev_blocker_price == self.mev_blocker_price,
            copy.constraints@.len() == self.constraints@.len(),
            forall|i: int|
                0 <= i < self.constraints@.len() ==> (#[trigger] copy.constraints@[i]).payload@
                    == self.constraints@[i].payload@,
    {
        let mut constraints: Vec<Constraint> = Vec::new();
        let mut i: usize = 0;
        while i < self.constraints.len()
            invariant
                i <= self.constraints@.len(),
                constraints@.len() == i,
                forall|k: int|
                    0 <= k < i ==> (#[trigger] constraints@[k]).payload@
                        == self.constraints@[k].payload@,
            decreases self.constraints@.len() - i,
        {
            constraints.push(
                Constraint { payload: copy_bytes(self.constraints[i].payload.as_slice()) },
            );
            i += 1;
        }
        assert(payloads(constraints@) =~= payloads(self.constraints@));
        BlockBuildingContext {
            block: self.block,
            suggested_fee_recipient: self.suggested_fee_recipient,
            mev_blocker_price: self.mev_blocker_price,
            constraints,
        }
    }
}

} // verus!
