//! Constraint proofs of the last slots.

use crate::building::constraint_proofs::{ConstraintProof, ConstraintProofView};
use crate::collections::hash_map::{
    hash_keyed_map_get, hash_keyed_map_insert, hash_keyed_map_keys, hash_keyed_map_new,
    hash_keyed_map_remove, number_map_get, number_map_insert, number_map_keys, number_map_new,
    number_map_remove, HashKeyedMap, NumberMap,
};
use crate::collections::sorting::{descending, is_descending};
use crate::primitives::bytes::B256;
use vstd::prelude::*;

verus! {

/// Keep proofs for the last 10 slots
pub const MAX_SLOTS_TO_KEEP: usize = 10;

/// Proofs for all constraint transactions in a single block
#[derive(Debug, Clone)]
pub struct BlockProofs {
    pub block_hash: B256,
    pub block_number: u64,
    pub proofs: Vec<ConstraintProof>,
}

/// Proofs for all blocks in a single slot
#[derive(Debug, Clone)]
pub struct SlotProofs {
    pub slot: u64,
    pub blocks: Vec<BlockProofs>,
}

/// Response structure for the RPC endpoint - returns last 10 slots
#[derive(Debug, Clone)]
pub struct ProofsResponse {
    pub slots: Vec<SlotProofs>,
}

/// What a `BlockProofs` states.
pub struct BlockProofsView {
    pub block_hash: B256,
    pub block_number: u64,
    pub proofs: Seq<ConstraintProofView>,
}

/// What a list of proofs states.
pub open spec fn proof_views(proofs: Seq<ConstraintProof>) -> Seq<ConstraintProofView> {
    proofs.map_values(|p: ConstraintProof| p@)
}

impl View for BlockProofs {
    type V = BlockProofsView;

    open spec fn view(&self) -> BlockProofsView {
        BlockProofsView {
            block_hash: self.block_hash,
            block_number: self.block_number,
            proofs: proof_views(self.proofs@),
        }
    }
}

/// The blocks of a slot, by hash.
pub type BlocksView = Map<B256, BlockProofsView>;

/// The slots of a storage, with their blocks.
pub type StorageView = Map<u64, BlocksView>;

/// The blocks of a slot after a proof was added to the one with a given hash.
pub open spec fn blocks_with_proof(
    blocks: BlocksView,
    block_hash: B256,
    block_number: u64,
    proof: ConstraintProofView,
) -> BlocksView {
    let block = if blocks.contains_key(block_hash) {
        blocks[block_hash]
    } else {
        BlockProofsView { block_hash, block_number, proofs: Seq::empty() }
    };
    blocks.insert(block_hash, BlockProofsView { proofs: block.proofs.push(proof), ..block })
}

/// The slots after a proof was added to one of them, before the oldest is dropped.
pub open spec fn slots_with_proof(
    slots: StorageView,
    slot: u64,
    block_hash: B256,
    block_number: u64,
    proof: ConstraintProofView,
) -> StorageView {
    let blocks = if slots.contains_key(slot) {
        slots[slot]
    } else {
        Map::empty()
    };
    slots.insert(slot, blocks_with_proof(blocks, block_hash, block_number, proof))
}

/// Whether `slot` is the oldest of the slots.
pub open spec fn is_oldest(slots: StorageView, slot: u64) -> bool {
    slots.contains_key(slot) && forall|other: u64| slots.contains_key(other) ==> slot <= other
}

/// The slots without the oldest, where there are more than are kept.
pub open spec fn without_oldest(slots: StorageView) -> StorageView {
    if slots.dom().len() > MAX_SLOTS_TO_KEEP {
        slots.remove(choose|slot: u64| is_oldest(slots, slot))
    } else {
        slots
    }
}

/// The storage after a proof was added.
pub open spec fn storage_with_proof(
    slots: StorageView,
    slot: u64,
    block_hash: B256,
    block_number: u64,
    proof: ConstraintProofView,
) -> StorageView {
    without_oldest(slots_with_proof(slots, slot, block_hash, block_number, proof))
}

/// At most `MAX_SLOTS_TO_KEEP` slots, each with a block, each block under its hash and with a
/// proof.
pub open spec fn storage_wf(slots: StorageView) -> bool {
    &&& slots.dom().finite()
    &&& slots.dom().len() <= MAX_SLOTS_TO_KEEP
    &&& forall|slot: u64| #[trigger] slots.contains_key(slot) ==> blocks_wf(slots[slot])
}

/// At least one block, each under its hash and with a proof.
pub open spec fn blocks_wf(blocks: BlocksView) -> bool {
    &&& blocks.dom().len() > 0
    &&& blocks.dom().finite()
    &&& forall|hash: B256| #[trigger]
        blocks.contains_key(hash) ==> blocks[hash].block_hash == hash && blocks[hash].proofs.len()
            > 0
}

/// Whether a list holds the blocks of a slot, each once.
pub open spec fn lists_blocks(list: Seq<BlockProofs>, blocks: BlocksView) -> bool {
    &&& list.len() == blocks.dom().len()
    &&& forall|i: int|
        0 <= i < list.len() ==> blocks.contains_key((#[trigger] list[i]).block_hash)
            && blocks[list[i].block_hash] == list[i]@
    &&& forall|i: int, j: int|
        0 <= i < j < list.len() ==> (#[trigger] list[i]).block_hash != (
        #[trigger] list[j]).block_hash
    &&& forall|hash: B256| #[trigger]
        blocks.contains_key(hash) ==> exists|i: int|
            0 <= i < list.len() && (#[trigger] list[i]).block_hash == hash
}

/// The slot numbers of a response, in order.
pub open spec fn response_slots(slots: Seq<SlotProofs>) -> Seq<u64> {
    slots.map_values(|s: SlotProofs| s.slot)
}

impl BlockProofs {
    /// A copy of the proofs.
    pub fn duplicate(&self) -> (copy: BlockProofs)
        ensures
            copy@ == self@,
            copy.block_hash == self.block_hash,
            copy.block_number == self.block_number,
            copy.proofs@.len() == self.proofs@.len(),
            forall|i: int|
                0 <= i < self.proofs@.len() ==> (#[trigger] copy.proofs@[i])@ == self.proofs@[i]@,
    {
        let mut proofs: Vec<ConstraintProof> = Vec::new();
        let mut i: usize = 0;
        while i < self.proofs.len()
            invariant
                i <= self.proofs@.len(),
                proofs@.len() == i,
                forall|k: int| 0 <= k < i ==> (#[trigger] proofs@[k])@ == self.proofs@[k]@,
            decreases self.proofs@.len() - i,
        {
            proofs.push(self.proofs[i].duplicate());
            i += 1;
        }
        assert(proof_views(proofs@) =~= proof_views(self.proofs@));
        BlockProofs { block_hash: self.block_hash, block_number: self.block_number, proofs }
    }
}

/// Storage for constraint proofs
pub struct ConstraintProofStorage {
    // Map: slot -> block_hash -> BlockProofs
    storage: NumberMap<HashKeyedMap<BlockProofs>>,
}

spec fn blocks_view(blocks: Map<B256, BlockProofs>) -> BlocksView {
    blocks.map_values(|b: BlockProofs| b@)
}

impl View for ConstraintProofStorage {
    type V = StorageView;

    closed spec fn view(&self) -> StorageView {
        self.storage@.map_values(|blocks: HashKeyedMap<BlockProofs>| blocks_view(blocks@))
    }
}

proof fn lemma_listed_domain<K, V>(map: Map<K, V>, keys: Seq<K>)
    requires
        keys.no_duplicates(),
        forall|k: K| keys.contains(k) <==> map.contains_key(k),
    ensures
        map.dom().finite(),
        map.dom().len() == keys.len(),
{
    keys.unique_seq_to_set();
    assert(keys.to_set() =~= map.dom());
    vstd::seq_lib::seq_to_set_is_finite(keys);
}

impl ConstraintProofStorage {
    /// See `storage_wf`.
    pub open spec fn wf(&self) -> bool {
        storage_wf(self@)
    }

    pub fn new() -> (storage: Self)
        ensures
            storage.wf(),
            storage@ == Map::<u64, BlocksView>::empty(),
    {
        let storage = ConstraintProofStorage { storage: number_map_new() };
        assert(storage@ =~= Map::<u64, BlocksView>::empty());
        storage
    }

    /// Store a proof for a constraint transaction
    pub fn add_proof(
        &mut self,
        slot: u64,
        block_hash: B256,
        block_number: u64,
        proof: ConstraintProof,
    )
        requires
            old(self).wf(),
        ensures
            final(self).wf(),
            final(self)@ == storage_with_proof(
                old(self)@,
                slot,
                block_hash,
                block_number,
                proof@,
            ),
    {
        let ghost before = self@;
        // Get or create slot entry
        let mut blocks = match number_map_remove(&mut self.storage, slot) {
            Some(blocks) => blocks,
            None => hash_keyed_map_new(),
        };
        let ghost old_blocks = blocks_view(blocks@);
        proof {
            if before.contains_key(slot) {
                assert(old_blocks == before[slot]);
            } else {
                assert(old_blocks =~= Map::empty());
            }
        }
        // Get or create block entry
        let mut block = match hash_keyed_map_remove(&mut blocks, block_hash) {
            Some(block) => block,
            None => BlockProofs { block_hash, block_number, proofs: Vec::new() },
        };
        let ghost old_block = block@;
        // Add the proof
        let ghost old_proofs = block.proofs@;
        block.proofs.push(proof);
        assert(proof_views(block.proofs@) =~= proof_views(old_proofs).push(proof@));
        let _ = hash_keyed_map_insert(&mut blocks, block_hash, block);
        proof {
            if !old_blocks.contains_key(block_hash) {
                assert(old_block.proofs =~= Seq::empty());
            }
            assert(blocks_view(blocks@) =~= blocks_with_proof(
                old_blocks,
                block_hash,
                block_number,
                proof@,
            ));
        }
        let _ = number_map_insert(&mut self.storage, slot, blocks);
        let ghost added = slots_with_proof(before, slot, block_hash, block_number, proof@);
        assert(self@ =~= added);
        // Cleanup: keep only the last MAX_SLOTS_TO_KEEP slots
        let keys = number_map_keys(&self.storage);
        proof {
            lemma_listed_domain(self@, keys@);
            assert(added.dom() =~= before.dom().insert(slot));
            let new_blocks = added[slot];
            assert(new_blocks.dom() =~= old_blocks.dom().insert(block_hash));
            assert(new_blocks.dom().contains(block_hash));
            assert(blocks_wf(new_blocks));
            assert forall|s: u64| #[trigger] added.contains_key(s) implies blocks_wf(added[s]) by {
                if s != slot {
                    assert(before.contains_key(s));
                }
            }
        }
        if keys.len() > MAX_SLOTS_TO_KEEP {
            // Find the oldest slot to remove
            let min_slot: u64 = smallest(&keys);
            proof {
                assert(added.contains_key(min_slot)) by {
                    assert(keys@.contains(min_slot));
                }
                assert forall|other: u64| added.contains_key(other) implies min_slot <= other by {
                    assert(keys@.contains(other));
                }
                assert(is_oldest(added, min_slot));
                let chosen = choose|s: u64| is_oldest(added, s);
                assert(is_oldest(added, chosen));
                assert(chosen == min_slot);
            }
            let _ = number_map_remove(&mut self.storage, min_slot);
            assert(self@ =~= added.remove(min_slot));
        }
    }

    /// Get proofs for the last 10 slots, the most recent slot first
    pub fn get_recent_proofs(&self) -> (response: ProofsResponse)
        requires
            self.wf(),
        ensures
            is_descending(response_slots(response.slots@)),
            forall|i: int, j: int|
                0 <= i < j < response.slots@.len() ==> (#[trigger] response.slots@[i]).slot > (
                #[trigger] response.slots@[j]).slot,
            response.slots@.len() <= 10,
            response.slots@.len() == self@.dom().len(),
            forall|i: int, k: int, l: int|
                0 <= i < response.slots@.len() && 0 <= k < l < response.slots@[i].blocks@.len()
                    ==> (#[trigger] response.slots@[i].blocks@[k]).block_hash != (
                #[trigger] response.slots@[i].blocks@[l]).block_hash,
            forall|i: int|
                0 <= i < response.slots@.len() ==> {
                    let slot = #[trigger] response.slots@[i];
                    &&& self@.contains_key(slot.slot)
                    &&& slot.blocks@.len() == self@[slot.slot].dom().len()
                    &&& forall|k: int|
                        0 <= k < slot.blocks@.len() ==> {
                            let block = #[trigger] slot.blocks@[k];
                            &&& self@[slot.slot].contains_key(block.block_hash)
                            &&& self@[slot.slot][block.block_hash].block_number
                                == block.block_number
                            &&& self@[slot.slot][block.block_hash].proofs == proof_views(
                                block.proofs@,
                            )
                        }
                },
            forall|slot: u64|
                response_slots(response.slots@).contains(slot) <==> self@.contains_key(slot),
            forall|i: int|
                0 <= i < response.slots@.len() ==> lists_blocks(
                    (#[trigger] response.slots@[i]).blocks@,
                    self@[response.slots@[i].slot],
                ),
    {
        // Get all slots and sort them
        let keys = number_map_keys(&self.storage);
        let slots = descending(&keys);
        // Build response
        let mut slot_proofs: Vec<SlotProofs> = Vec::new();
        let mut i: usize = 0;
        while i < slots.len()
            invariant
                self.wf(),
                i <= slots@.len(),
                slot_proofs@.len() == i,
                forall|k: u64| slots@.contains(k) <==> self.storage@.contains_key(k),
                forall|k: int| 0 <= k < i ==> (#[trigger] slot_proofs@[k]).slot == slots@[k],
                forall|k: int|
                    0 <= k < i ==> lists_blocks(
                        (#[trigger] slot_proofs@[k]).blocks@,
                        self@[slot_proofs@[k].slot],
                    ),
            decreases slots@.len() - i,
        {
            let slot: u64 = slots[i];
            assert(slots@.contains(slot));
            match number_map_get(&self.storage, slot) {
                Some(blocks) => {
                    proof {
                        let view = self@[slot];
                        assert(self@.contains_key(slot));
                        assert(view == blocks_view(blocks@));
                        assert(blocks_wf(view));
                        assert forall|hash: B256| #[trigger] blocks@.contains_key(hash) implies blocks@[hash].block_hash
                            == hash by {
                            assert(view.contains_key(hash));
                            assert(view[hash] == blocks@[hash]@);
                        }
                    }
                    slot_proofs.push(SlotProofs { slot, blocks: all_blocks(blocks) });
                },
                None => {
                    assert(false);
                },
            }
            i += 1;
        }
        assert(response_slots(slot_proofs@) =~= slots@);
        proof {
            assert forall|k: u64| keys@.contains(k) <==> self@.contains_key(k) by {
                assert(self.storage@.contains_key(k) == self@.contains_key(k));
            }
            lemma_listed_domain(self@, keys@);
            assert forall|i: int, k: int, l: int|
                0 <= i < slot_proofs@.len() && 0 <= k < l < slot_proofs@[i].blocks@.len() implies (
            #[trigger] slot_proofs@[i].blocks@[k]).block_hash != (
            #[trigger] slot_proofs@[i].blocks@[l]).block_hash by {
                assert(lists_blocks(slot_proofs@[i].blocks@, self@[slot_proofs@[i].slot]));
            }
            assert forall|i: int| 0 <= i < slot_proofs@.len() implies {
                let slot = #[trigger] slot_proofs@[i];
                &&& self@.contains_key(slot.slot)
                &&& slot.blocks@.len() == self@[slot.slot].dom().len()
                &&& forall|k: int|
                    0 <= k < slot.blocks@.len() ==> {
                        let block = #[trigger] slot.blocks@[k];
                        &&& self@[slot.slot].contains_key(block.block_hash)
                        &&& self@[slot.slot][block.block_hash].block_number == block.block_number
                        &&& self@[slot.slot][block.block_hash].proofs == proof_views(block.proofs@)
                    }
            } by {
                assert(slots@.contains(slots@[i]));
                let slot = slot_proofs@[i];
                assert(lists_blocks(slot.blocks@, self@[slot.slot]));
                assert forall|k: int| 0 <= k < slot.blocks@.len() implies {
                    let block = #[trigger] slot.blocks@[k];
                    &&& self@[slot.slot].contains_key(block.block_hash)
                    &&& self@[slot.slot][block.block_hash].block_number == block.block_number
                    &&& self@[slot.slot][block.block_hash].proofs == proof_views(block.proofs@)
                } by {
                    assert(self@[slot.slot][slot.blocks@[k].block_hash] == slot.blocks@[k]@);
                }
            }
        }
        ProofsResponse { slots: slot_proofs }
    }
}

/// Copies of the blocks of a slot.
fn all_blocks(blocks: &HashKeyedMap<BlockProofs>) -> (list: Vec<BlockProofs>)
    requires
        forall|hash: B256| #[trigger]
            blocks@.contains_key(hash) ==> blocks@[hash].block_hash == hash,
    ensures
        lists_blocks(list@, blocks_view(blocks@)),
{
    let keys = hash_keyed_map_keys(blocks);
    let mut list: Vec<BlockProofs> = Vec::new();
    let mut i: usize = 0;
    while i < keys.len()
        invariant
            i <= keys@.len(),
            list@.len() == i,
            forall|hash: B256| #[trigger]
                blocks@.contains_key(hash) ==> blocks@[hash].block_hash == hash,
            forall|k: B256| keys@.contains(k) <==> blocks@.contains_key(k),
            forall|k: int|
                0 <= k < i ==> (#[trigger] list@[k]).block_hash == keys@[k] && list@[k]@
                    == blocks@[keys@[k]]@,
        decreases keys@.len() - i,
    {
        assert(keys@.contains(keys@[i as int]));
        match hash_keyed_map_get(blocks, keys[i]) {
            Some(block) => {
                let copy = block.duplicate();
                assert(copy@.block_hash == block@.block_hash);
                list.push(copy);
            },
            None => {
                assert(false);
            },
        }
        i += 1;
    }
    proof {
        let view = blocks_view(blocks@);
        lemma_listed_domain(view, keys@);
        assert forall|i: int| 0 <= i < list@.len() implies view.contains_key(
            (#[trigger] list@[i]).block_hash,
        ) && view[list@[i].block_hash] == list@[i]@ by {
            assert(keys@.contains(keys@[i]));
        }
        assert forall|hash: B256| #[trigger] view.contains_key(hash) implies exists|i: int|
            0 <= i < list@.len() && (#[trigger] list@[i]).block_hash == hash by {
            assert(keys@.contains(hash));
            let k = choose|k: int| 0 <= k < keys@.len() && keys@[k] == hash;
            assert(list@[k].block_hash == hash);
        }
    }
    list
}

fn smallest(numbers: &Vec<u64>) -> (min: u64)
    requires
        numbers@.len() > 0,
    ensures
        numbers@.contains(min),
        forall|n: u64| numbers@.contains(n) ==> min <= n,
{
    let mut min: u64 = numbers[0];
    let mut i: usize = 1;
    while i < numbers.len()
        invariant
            1 <= i <= numbers@.len(),
            numbers@.contains(min),
            forall|k: int| 0 <= k < i ==> min <= numbers@[k],
        decreases numbers@.len() - i,
    {
        if numbers[i] < min {
            min = numbers[i];
        }
        i += 1;
    }
    min
}

proof fn lemma_oldest_exists(slots: StorageView)
    requires
        slots.dom().finite(),
        slots.dom().len() > 0,
    ensures
        exists|slot: u64| is_oldest(slots, slot),
    decreases slots.dom().len(),
{
    let any = slots.dom().choose();
    assert(slots.contains_key(any));
    let rest = slots.remove(any);
    assert(rest.dom() =~= slots.dom().remove(any));
    if rest.dom().len() == 0 {
        assert forall|other: u64| slots.contains_key(other) implies any <= other by {
            if other != any {
                assert(rest.dom().contains(other));
            }
        }
        assert(is_oldest(slots, any));
    } else {
        lemma_oldest_exists(rest);
        let low = choose|slot: u64| is_oldest(rest, slot);
        let min = if any < low {
            any
        } else {
            low
        };
        assert forall|other: u64| slots.contains_key(other) implies min <= other by {
            if other != any {
                assert(rest.contains_key(other));
            }
        }
        assert(is_oldest(slots, min));
    }
}

/// A slot that adding a proof drops is older than every slot that stays: the storage retains the
/// last slots.
pub proof fn dropped_slot_is_older(
    slots: StorageView,
    slot: u64,
    block_hash: B256,
    block_number: u64,
    proof: ConstraintProofView,
    dropped: u64,
    kept: u64,
)
    requires
        storage_wf(slots),
        slots_with_proof(slots, slot, block_hash, block_number, proof).contains_key(dropped),
        !storage_with_proof(slots, slot, block_hash, block_number, proof).contains_key(dropped),
        storage_with_proof(slots, slot, block_hash, block_number, proof).contains_key(kept),
    ensures
        dropped < kept,
{
    let added = slots_with_proof(slots, slot, block_hash, block_number, proof);
    assert(added.dom() =~= slots.dom().insert(slot));
    lemma_oldest_exists(added);
    let oldest = choose|s: u64| is_oldest(added, s);
    assert(is_oldest(added, oldest));
    assert(dropped == oldest);
    assert(added.contains_key(kept));
}

/// At most one slot is dropped for a proof, and only where there would be more than
/// `MAX_SLOTS_TO_KEEP`; what the slots that stay hold is what they held, with the new proof last
/// in its block.
pub proof fn kept_slots_hold_their_proofs(
    slots: StorageView,
    slot: u64,
    block_hash: B256,
    block_number: u64,
    proof: ConstraintProofView,
    kept: u64,
)
    requires
        storage_wf(slots),
        storage_with_proof(slots, slot, block_hash, block_number, proof).contains_key(kept),
    ensures
        storage_wf(storage_with_proof(slots, slot, block_hash, block_number, proof)),
        ({
            let after = storage_with_proof(slots, slot, block_hash, block_number, proof);
            &&& kept != slot ==> slots.contains_key(kept) && after[kept] == slots[kept]
            &&& kept == slot ==> after[slot].contains_key(block_hash)
                && after[slot][block_hash].proofs.last() == proof
            &&& slots.contains_key(slot) || slots.dom().len() < MAX_SLOTS_TO_KEEP
                ==> after.dom() == slots.dom().insert(slot)
            &&& after.dom().len() >= slots.dom().len()
        }),
{
    let added = slots_with_proof(slots, slot, block_hash, block_number, proof);
    assert(added.dom() =~= slots.dom().insert(slot));
    lemma_oldest_exists(added);
    let oldest = choose|s: u64| is_oldest(added, s);
    let old_blocks = if slots.contains_key(slot) {
        slots[slot]
    } else {
        Map::empty()
    };
    assert(added[slot].dom() =~= old_blocks.dom().insert(block_hash));
    assert(added[slot].dom().contains(block_hash));
    assert(blocks_wf(added[slot]));
    let after = without_oldest(added);
    assert(added.remove(oldest).dom() =~= added.dom().remove(oldest));
    assert forall|s: u64| #[trigger] after.contains_key(s) implies blocks_wf(after[s]) by {
        if s != slot {
            assert(slots.contains_key(s));
        }
    }
    if slots.contains_key(slot) {
        assert(slots.dom().insert(slot) =~= slots.dom());
    }
}

/// The proofs that a storage holds for a block of a slot.
pub open spec fn held_proofs(slots: StorageView, slot: u64, block_hash: B256) -> Seq<
    ConstraintProofView,
> {
    if slots.contains_key(slot) && slots[slot].contains_key(block_hash) {
        slots[slot][block_hash].proofs
    } else {
        Seq::empty()
    }
}

/// A proof that is added comes after those that the storage held for its block; what it held for
/// other blocks and slots stays, but for the oldest slot where there are too many. A proof for a
/// slot that is older than all the slots of a full storage is not kept, and changes nothing.
pub proof fn added_proof_comes_last(
    slots: StorageView,
    slot: u64,
    block_hash: B256,
    block_number: u64,
    proof: ConstraintProofView,
)
    requires
        storage_wf(slots),
    ensures
        ({
            let after = storage_with_proof(slots, slot, block_hash, block_number, proof);
            &&& storage_wf(after)
            &&& after.contains_key(slot) ==> {
                &&& after[slot].contains_key(block_hash)
                &&& after[slot][block_hash].proofs == held_proofs(slots, slot, block_hash).push(
                    proof,
                )
                &&& after[slot][block_hash].block_hash == block_hash
                &&& after[slot][block_hash].block_number == if held_proofs(
                    slots,
                    slot,
                    block_hash,
                ).len() > 0 {
                    slots[slot][block_hash].block_number
                } else {
                    block_number
                }
                &&& forall|other: B256|
                    other != block_hash ==> held_proofs(after, slot, other) == #[trigger] held_proofs(
                        slots,
                        slot,
                        other,
                    )
            }
            &&& !after.contains_key(slot) ==> {
                &&& after == slots
                &&& slots.dom().len() == 10
                &&& forall|kept: u64| #[trigger] slots.contains_key(kept) ==> slot < kept
            }
            &&& forall|other: u64|
                other != slot && #[trigger] after.contains_key(other) ==> slots.contains_key(other)
                    && after[other] == slots[other]
            &&& forall|gone: u64, kept: u64|
                slots.contains_key(gone) && !after.contains_key(gone) && after.contains_key(kept)
                    ==> gone < kept
            &&& forall|gone: u64| #[trigger]
                slots.contains_key(gone) && !after.contains_key(gone) ==> slots.dom().len() == 10
                    && !slots.contains_key(slot)
        }),
{
    let added = slots_with_proof(slots, slot, block_hash, block_number, proof);
    let after = storage_with_proof(slots, slot, block_hash, block_number, proof);
    assert(added.dom() =~= slots.dom().insert(slot));
    lemma_oldest_exists(added);
    let oldest = choose|s: u64| is_oldest(added, s);
    assert(is_oldest(added, oldest));
    assert(added.remove(oldest).dom() =~= added.dom().remove(oldest));
    let old_blocks = if slots.contains_key(slot) {
        slots[slot]
    } else {
        Map::empty()
    };
    assert(added[slot].dom() =~= old_blocks.dom().insert(block_hash));
    assert(added[slot].dom().contains(block_hash));
    assert(blocks_wf(added[slot]));
    assert forall|s: u64| #[trigger] after.contains_key(s) implies blocks_wf(after[s]) by {
        if s != slot {
            assert(slots.contains_key(s));
        }
    }
    if slots.contains_key(slot) {
        assert(slots.dom().insert(slot) =~= slots.dom());
        assert(blocks_wf(slots[slot]));
    }
    if !after.contains_key(slot) {
        assert(oldest == slot);
        assert(after =~= slots);
        assert forall|kept: u64| #[trigger] slots.contains_key(kept) implies slot < kept by {
            assert(added.contains_key(kept));
        }
    }
    assert forall|gone: u64, kept: u64|
        slots.contains_key(gone) && !after.contains_key(gone) && after.contains_key(
            kept,
        ) implies gone < kept by {
        assert(added.contains_key(gone));
        assert(added.contains_key(kept));
    }
}

/// A proof that was added.
pub struct Addition {
    pub slot: u64,
    pub block_hash: B256,
    pub block_number: u64,
    pub proof: ConstraintProofView,
}

/// A storage after proofs were added to it, in order; it was empty before.
pub open spec fn storage_after(additions: Seq<Addition>) -> StorageView
    decreases additions.len(),
{
    if additions.len() == 0 {
        Map::empty()
    } else {
        let last = additions.last();
        storage_with_proof(
            storage_after(additions.drop_last()),
            last.slot,
            last.block_hash,
            last.block_number,
            last.proof,
        )
    }
}

/// Whether a proof was added for a slot.
pub open spec fn was_added(additions: Seq<Addition>, slot: u64) -> bool {
    exists|i: int| 0 <= i < additions.len() && (#[trigger] additions[i]).slot == slot
}

/// The proofs that were added for a block of a slot, in order.
pub open spec fn proofs_added(additions: Seq<Addition>, slot: u64, block_hash: B256) -> Seq<
    ConstraintProofView,
>
    decreases additions.len(),
{
    if additions.len() == 0 {
        Seq::empty()
    } else {
        let before = proofs_added(additions.drop_last(), slot, block_hash);
        let last = additions.last();
        if last.slot == slot && last.block_hash == block_hash {
            before.push(last.proof)
        } else {
            before
        }
    }
}

/// The number that came with the first proof that was added for a block of a slot.
pub open spec fn number_added(additions: Seq<Addition>, slot: u64, block_hash: B256) -> u64
    decreases additions.len(),
{
    if additions.len() == 0 {
        0
    } else if proofs_added(additions.drop_last(), slot, block_hash).len() > 0 {
        number_added(additions.drop_last(), slot, block_hash)
    } else {
        additions.last().block_number
    }
}

/// Whether a block of a slot has the given number and holds the given proofs; without any, the
/// block is not there.
pub open spec fn block_holds(
    blocks: BlocksView,
    block_hash: B256,
    block_number: u64,
    proofs: Seq<ConstraintProofView>,
) -> bool {
    if proofs.len() == 0 {
        !blocks.contains_key(block_hash)
    } else {
        blocks.contains_key(block_hash) && blocks[block_hash] == (BlockProofsView {
            block_hash,
            block_number,
            proofs,
        })
    }
}

proof fn lemma_nothing_added(additions: Seq<Addition>, slot: u64, block_hash: B256)
    requires
        !was_added(additions, slot),
    ensures
        proofs_added(additions, slot, block_hash).len() == 0,
    decreases additions.len(),
{
    if additions.len() > 0 {
        let before = additions.drop_last();
        assert(additions[additions.len() - 1].slot != slot);
        assert forall|i: int| 0 <= i < before.len() implies (#[trigger] before[i]).slot != slot by {
            assert(additions[i].slot != slot);
        }
        lemma_nothing_added(before, slot, block_hash);
    }
}

/// The storage retains the last slots, whatever is added in whatever order: it keeps at most
/// `MAX_SLOTS_TO_KEEP` slots, only such as proofs were added for; a slot that was added and is not
/// kept is older than every kept one, of which there are then `MAX_SLOTS_TO_KEEP`; and every block
/// of a kept slot holds all the proofs that were added for it, in order, and has the number that
/// came with the first of them.
pub proof fn last_slots_are_retained(additions: Seq<Addition>)
    ensures
        storage_wf(storage_after(additions)),
        forall|slot: u64| #[trigger]
            storage_after(additions).contains_key(slot) ==> was_added(additions, slot),
        forall|slot: u64, kept: u64|
            was_added(additions, slot) && !storage_after(additions).contains_key(slot)
                && storage_after(additions).contains_key(kept) ==> slot < kept,
        forall|slot: u64|
            was_added(additions, slot) && !storage_after(additions).contains_key(slot)
                ==> storage_after(additions).dom().len() == MAX_SLOTS_TO_KEEP,
        forall|slot: u64, block_hash: B256| #[trigger]
            storage_after(additions).contains_key(slot) ==> block_holds(
                storage_after(additions)[slot],
                block_hash,
                number_added(additions, slot, block_hash),
                #[trigger] proofs_added(additions, slot, block_hash),
            ),
    decreases additions.len(),
{
    if additions.len() == 0 {
        assert(storage_after(additions).dom() =~= Set::empty());
    } else {
        let earlier = additions.drop_last();
        last_slots_are_retained(earlier);
        let before = storage_after(earlier);
        let last = additions.last();
        let slot = last.slot;
        let added = slots_with_proof(before, slot, last.block_hash, last.block_number, last.proof);
        let after = storage_after(additions);
        assert(added.dom() =~= before.dom().insert(slot));
        lemma_oldest_exists(added);
        let oldest = choose|s: u64| is_oldest(added, s);
        assert(is_oldest(added, oldest));
        assert(added.remove(oldest).dom() =~= added.dom().remove(oldest));
        let old_blocks = if before.contains_key(slot) {
            before[slot]
        } else {
            Map::empty()
        };
        assert(added[slot].dom() =~= old_blocks.dom().insert(last.block_hash));
        assert(added[slot].dom().contains(last.block_hash));
        assert(blocks_wf(added[slot]));
        assert forall|s: u64| #[trigger] after.contains_key(s) implies blocks_wf(after[s]) by {
            if s != slot {
                assert(before.contains_key(s));
            }
        }
        assert(additions[additions.len() - 1] == last);
        assert(was_added(additions, slot));
        assert forall|s: u64| was_added(earlier, s) implies was_added(additions, s) by {
            let i = choose|i: int| 0 <= i < earlier.len() && (#[trigger] earlier[i]).slot == s;
            assert(additions[i].slot == s);
        }
        assert forall|s: u64| was_added(additions, s) && s != slot implies was_added(
            earlier,
            s,
        ) by {
            let i = choose|i: int| 0 <= i < additions.len() && (#[trigger] additions[i]).slot == s;
            assert(earlier[i].slot == s);
        }
        assert forall|s: u64| #[trigger] after.contains_key(s) implies was_added(additions, s) by {
            if s != slot {
                assert(before.contains_key(s));
            }
        }
        assert forall|s: u64, kept: u64|
            was_added(additions, s) && !after.contains_key(s) && after.contains_key(
                kept,
            ) implies s < kept by {
            assert(added.contains_key(kept));
            if !added.contains_key(s) {
                assert(was_added(earlier, s) && !before.contains_key(s));
                assert(before.dom().len() == MAX_SLOTS_TO_KEEP);
                if !before.contains_key(kept) {
                    assert(kept == slot);
                    assert(added.dom().len() == MAX_SLOTS_TO_KEEP + 1);
                    assert(oldest != slot);
                    assert(before.contains_key(oldest));
                }
            }
        }
        assert forall|s: u64| was_added(additions, s) && !after.contains_key(s) implies after.dom().len()
            == MAX_SLOTS_TO_KEEP by {
            if !added.contains_key(s) {
                assert(was_added(earlier, s) && !before.contains_key(s));
            }
        }
        assert forall|s: u64, hash: B256| #[trigger] after.contains_key(s) implies block_holds(
            after[s],
            hash,
            number_added(additions, s, hash),
            #[trigger] proofs_added(additions, s, hash),
        ) by {
            let proofs = proofs_added(earlier, s, hash);
            assert(proofs.len() == 0 ==> proofs =~= Seq::empty());
            if before.contains_key(s) {
                let number = number_added(earlier, s, hash);
                assert(block_holds(before[s], hash, number, proofs));
            } else {
                assert(s == slot);
                if was_added(earlier, s) {
                    assert(before.dom().len() == MAX_SLOTS_TO_KEEP);
                    assert(added.dom().len() == MAX_SLOTS_TO_KEEP + 1);
                    if oldest != s {
                        assert(before.contains_key(oldest));
                        assert(added.contains_key(s));
                    }
                } else {
                    lemma_nothing_added(earlier, s, hash);
                }
            }
        }
    }
}

impl Default for ConstraintProofStorage {
    fn default() -> (storage: Self)
        ensures
            storage.wf(),
            storage@ == Map::<u64, BlocksView>::empty(),
    {
        Self::new()
    }
}

} // verus!
