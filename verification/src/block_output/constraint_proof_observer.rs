//! Merkle inclusion proofs for the constraint transactions of a submitted block.

use crate::block_output::constraint_proof_storage::{
    added_proof_comes_last, held_proofs, storage_wf, storage_with_proof, ConstraintProofStorage,
    StorageView,
};
use crate::building::constraint_proofs::{
    indexed_entries, transaction_hashes, transaction_values, ConstraintProof,
    ConstraintProofError, ConstraintProofView, TransactionTrieBuilder,
};
use crate::building::transaction::{decode_2718, enveloped_transaction, TransactionSigned};
use crate::building::trie::{proof_value, trie_proof, trie_root};
use crate::building::trie_nodes::decodable_nodes;
use crate::mev_boost::submission::SubmitBlockRequest;
use crate::primitives::bytes::{byte_strings, B256};
use crate::primitives::rlp::rlp_uint;
use vstd::prelude::*;

verus! {

/// Why the transactions of a payload could not be extracted.
#[derive(Debug)]
pub enum ExtractionError {
    /// The transaction at this index could not be decoded.
    Undecodable(usize, alloy_eips::eip2718::Eip2718Error),
    /// No transactions in execution payload
    NoTransactions,
}

/// Why no proofs were generated for a block.
#[derive(Debug)]
pub enum ProofGenerationError {
    /// Failed to extract transactions from execution payload
    Extraction(ExtractionError),
    /// Failed to build transaction trie
    TrieBuild(ConstraintProofError),
    /// Failed to compute transaction root
    Root(ConstraintProofError),
}

/// Why there is no proof for a constraint transaction.
#[derive(Debug)]
pub enum SingleProofError {
    /// Transaction not found in block
    NotInBlock(ConstraintProofError),
    /// Failed to generate proof
    NotGenerated(ConstraintProofError),
}

/// What became of a constraint transaction.
#[derive(Debug)]
pub enum ProofOutcome {
    Generated(ConstraintProof),
    Failed(B256, SingleProofError),
}

/// Whether all the transactions of a payload can be decoded.
pub open spec fn all_decodable(encoded: Seq<Seq<u8>>) -> bool {
    forall|i: int| 0 <= i < encoded.len() ==> enveloped_transaction(#[trigger] encoded[i]) is Some
}

/// The hashes of the transactions of a payload.
pub open spec fn payload_hashes(encoded: Seq<Seq<u8>>) -> Seq<Seq<u8>> {
    encoded.map_values(|tx: Seq<u8>| (enveloped_transaction(tx)->0).0)
}

/// The RLP encodings of the transactions of a payload.
pub open spec fn payload_values(encoded: Seq<Seq<u8>>) -> Seq<Seq<u8>> {
    encoded.map_values(|tx: Seq<u8>| (enveloped_transaction(tx)->0).1)
}

/// The transactions of a submission, as they are encoded.
pub open spec fn encoded_transactions(request: SubmitBlockRequest) -> Seq<Seq<u8>> {
    byte_strings(request.payload().transactions@)
}

/// Whether `proof` shows that the transaction with hash `tx_hash` is in a block whose
/// transactions have the given hashes and encodings: it names the first index with that hash and
/// the root of the transaction trie, and its nodes verify against that root to the encoded
/// transaction at that index.
pub open spec fn is_inclusion_proof(
    proof: ConstraintProofView,
    tx_hash: B256,
    hashes: Seq<Seq<u8>>,
    values: Seq<Seq<u8>>,
    block_number: u64,
    slot: u64,
) -> bool {
    let index = proof.tx_index as int;
    let key = rlp_uint(proof.tx_index as nat);
    &&& proof.tx_hash == tx_hash@
    &&& 0 <= index < hashes.len()
    &&& hashes[index] == tx_hash@
    &&& forall|j: int| 0 <= j < index ==> hashes[j] != tx_hash@
    &&& proof.transactions_root == trie_root(indexed_entries(values))
    &&& proof.proof == trie_proof(indexed_entries(values), true, key)
    &&& proof_value(proof.transactions_root, key, decodable_nodes(proof.proof)) == Some(
        Some(values[index]),
    )
    &&& proof.block_number == block_number
    &&& proof.slot == slot
}

/// Whether `outcome` is what becomes of a constraint transaction: a proof where the block holds
/// the transaction, and a failure where it does not.
pub open spec fn is_outcome(
    outcome: ProofOutcome,
    tx_hash: B256,
    hashes: Seq<Seq<u8>>,
    values: Seq<Seq<u8>>,
    block_number: u64,
    slot: u64,
) -> bool {
    match outcome {
        ProofOutcome::Generated(proof) => is_inclusion_proof(
            proof@,
            tx_hash,
            hashes,
            values,
            block_number,
            slot,
        ),
        ProofOutcome::Failed(hash, error) => {
            &&& hash == tx_hash
            &&& error matches SingleProofError::NotInBlock(ConstraintProofError::TxHashNotFound(h))
            &&& h == tx_hash
            &&& !hashes.contains(tx_hash@)
        },
    }
}

/// A storage after the proofs among the outcomes were added to it, in order.
pub open spec fn storage_with_outcomes(
    slots: StorageView,
    slot: u64,
    block_hash: B256,
    block_number: u64,
    outcomes: Seq<ProofOutcome>,
) -> StorageView
    decreases outcomes.len(),
{
    if outcomes.len() == 0 {
        slots
    } else {
        let before = storage_with_outcomes(
            slots,
            slot,
            block_hash,
            block_number,
            outcomes.drop_last(),
        );
        match outcomes.last() {
            ProofOutcome::Generated(proof) => storage_with_proof(
                before,
                slot,
                block_hash,
                block_number,
                proof@,
            ),
            ProofOutcome::Failed(_, _) => before,
        }
    }
}

/// The transactions of a payload are read in their order, each with the hash and the encoding that
/// its envelope decodes to; a payload whose transactions cannot all be decoded has one that cannot.
pub proof fn payload_is_read_in_order(request: SubmitBlockRequest, i: int)
    ensures
        ({
            let transactions = request.payload().transactions@;
            let encoded = encoded_transactions(request);
            &&& encoded.len() == transactions.len()
            &&& payload_hashes(encoded).len() == transactions.len()
            &&& payload_values(encoded).len() == transactions.len()
            &&& 0 <= i < transactions.len() ==> {
                &&& encoded[i] == transactions[i]@
                &&& enveloped_transaction(transactions[i]@) matches Some((hash, value))
                    ==> payload_hashes(encoded)[i] == hash && payload_values(encoded)[i] == value
            }
            &&& all_decodable(encoded) <==> forall|k: int|
                0 <= k < transactions.len() ==> enveloped_transaction(
                    (#[trigger] transactions[k])@,
                ) is Some
        }),
{
    let transactions = request.payload().transactions@;
    let encoded = encoded_transactions(request);
    if forall|k: int|
        0 <= k < transactions.len() ==> enveloped_transaction(
            (#[trigger] transactions[k])@,
        ) is Some {
        assert forall|k: int| 0 <= k < encoded.len() implies enveloped_transaction(
            #[trigger] encoded[k],
        ) is Some by {
            assert(encoded[k] == transactions[k]@);
        }
    }
    if all_decodable(encoded) {
        assert forall|k: int| 0 <= k < transactions.len() implies enveloped_transaction(
            (#[trigger] transactions[k])@,
        ) is Some by {
            assert(encoded[k] == transactions[k]@);
        }
    }
}

/// The proofs among outcomes, in order.
pub open spec fn generated_proofs(outcomes: Seq<ProofOutcome>) -> Seq<ConstraintProofView>
    decreases outcomes.len(),
{
    if outcomes.len() == 0 {
        Seq::empty()
    } else {
        let before = generated_proofs(outcomes.drop_last());
        match outcomes.last() {
            ProofOutcome::Generated(proof) => before.push(proof@),
            ProofOutcome::Failed(_, _) => before,
        }
    }
}

/// After a block was submitted, the storage holds under its slot and hash the proofs that it held
/// before, followed by every proof that was generated, in the order of the constraint transactions.
/// Only where the slot is older than all ten slots that are kept are they not stored, and then
/// nothing changes. The proofs of other blocks and of the other slots that are kept stay as they
/// were.
pub proof fn every_generated_proof_is_stored(
    slots: StorageView,
    slot: u64,
    block_hash: B256,
    block_number: u64,
    outcomes: Seq<ProofOutcome>,
)
    requires
        storage_wf(slots),
    ensures
        ({
            let after = storage_with_outcomes(slots, slot, block_hash, block_number, outcomes);
            let generated = generated_proofs(outcomes);
            &&& storage_wf(after)
            &&& generated.len() == 0 ==> after == slots
            &&& generated.len() > 0 && after.contains_key(slot) ==> {
                &&& after[slot].contains_key(block_hash)
                &&& after[slot][block_hash].proofs == held_proofs(slots, slot, block_hash)
                    + generated
                &&& after[slot][block_hash].block_number == if held_proofs(
                    slots,
                    slot,
                    block_hash,
                ).len() > 0 {
                    slots[slot][block_hash].block_number
                } else {
                    block_number
                }
            }
            &&& generated.len() > 0 && !after.contains_key(slot) ==> {
                &&& after == slots
                &&& slots.dom().len() == 10
                &&& forall|kept: u64| #[trigger] slots.contains_key(kept) ==> slot < kept
            }
            &&& slots.contains_key(slot) ==> after.contains_key(slot)
            &&& after.contains_key(slot) ==> forall|other: B256|
                other != block_hash ==> held_proofs(after, slot, other) == #[trigger] held_proofs(
                    slots,
                    slot,
                    other,
                )
            &&& forall|other: u64|
                other != slot && #[trigger] after.contains_key(other) ==> slots.contains_key(other)
                    && after[other] == slots[other]
        }),
    decreases outcomes.len(),
{
    if outcomes.len() > 0 {
        let earlier = outcomes.drop_last();
        every_generated_proof_is_stored(slots, slot, block_hash, block_number, earlier);
        let before = storage_with_outcomes(slots, slot, block_hash, block_number, earlier);
        let generated = generated_proofs(earlier);
        match outcomes.last() {
            ProofOutcome::Generated(proof) => {
                added_proof_comes_last(before, slot, block_hash, block_number, proof@);
                let held = held_proofs(slots, slot, block_hash);
                assert(held + generated.push(proof@) =~= (held + generated).push(proof@));
                assert(generated.len() == 0 ==> held + generated =~= held);
                assert(held.len() == 0 ==> held =~= Seq::empty());
                let after = storage_with_outcomes(slots, slot, block_hash, block_number, outcomes);
                if slots.contains_key(slot) {
                    assert(before.contains_key(slot));
                    assert(after.contains_key(slot));
                }
            },
            ProofOutcome::Failed(_, _) => {},
        }
    } else {
        assert(held_proofs(slots, slot, block_hash) + Seq::<ConstraintProofView>::empty()
            =~= held_proofs(slots, slot, block_hash));
    }
}

/// What became of a constraint transaction tells whether the block holds it. Where it does, the
/// proof names the transaction, the first place that it stands at, the root of the trie over the
/// block's transactions, and the block and slot that it was submitted for, and its nodes lead from
/// that root to the encoding of the transaction; where it does not, the outcome names the hash.
pub proof fn outcome_tells_whether_the_block_holds_it(
    outcome: ProofOutcome,
    tx_hash: B256,
    hashes: Seq<Seq<u8>>,
    values: Seq<Seq<u8>>,
    block_number: u64,
    slot: u64,
)
    requires
        is_outcome(outcome, tx_hash, hashes, values, block_number, slot),
    ensures
        outcome is Generated <==> exists|i: int| 0 <= i < hashes.len() && hashes[i] == tx_hash@,
        outcome matches ProofOutcome::Generated(proof) ==> {
            &&& proof.tx_hash@ == tx_hash@
            &&& proof.tx_index < hashes.len()
            &&& hashes[proof.tx_index as int] == tx_hash@
            &&& forall|j: int| 0 <= j < proof.tx_index ==> hashes[j] != tx_hash@
            &&& proof.transactions_root@ == trie_root(indexed_entries(values))
            &&& proof.block_number == block_number
            &&& proof.slot == slot
            &&& byte_strings(proof.proof@) == trie_proof(
                indexed_entries(values),
                true,
                rlp_uint(proof.tx_index as nat),
            )
            &&& proof_value(
                proof.transactions_root@,
                rlp_uint(proof.tx_index as nat),
                decodable_nodes(byte_strings(proof.proof@)),
            ) == Some(Some(values[proof.tx_index as int]))
        },
        outcome matches ProofOutcome::Failed(hash, e) ==> hash == tx_hash && (
        e matches SingleProofError::NotInBlock(ConstraintProofError::TxHashNotFound(h)) && h
            == tx_hash),
{
    if exists|i: int| 0 <= i < hashes.len() && hashes[i] == tx_hash@ {
        let i = choose|i: int| 0 <= i < hashes.len() && hashes[i] == tx_hash@;
        assert(hashes.contains(hashes[i]));
    }
}

/// Extract signed transactions from the execution payload
pub fn extract_transactions(request: &SubmitBlockRequest) -> (result: Result<
    Vec<TransactionSigned>,
    ExtractionError,
>)
    ensures
        match result {
            Ok(transactions) => {
                &&& encoded_transactions(*request).len() > 0
                &&& all_decodable(encoded_transactions(*request))
                &&& transaction_hashes(transactions@) == payload_hashes(
                    encoded_transactions(*request),
                )
                &&& transaction_values(transactions@) == payload_values(
                    encoded_transactions(*request),
                )
                &&& forall|i: int|
                    0 <= i < transactions@.len() ==> (#[trigger] transactions@[i]).wf()
            },
            Err(ExtractionError::NoTransactions) => encoded_transactions(*request).len() == 0,
            Err(ExtractionError::Undecodable(i, _)) => {
                &&& i < encoded_transactions(*request).len()
                &&& enveloped_transaction(encoded_transactions(*request)[i as int]) is None
                &&& all_decodable(encoded_transactions(*request).take(i as int))
            },
        },
{
    // Extract transaction bytes from the appropriate variant
    let tx_bytes_list = &request.execution_payload().transactions;
    let ghost encoded = encoded_transactions(*request);
    // Decode transactions
    let mut transactions: Vec<TransactionSigned> = Vec::new();
    let mut i: usize = 0;
    while i < tx_bytes_list.len()
        invariant
            i <= tx_bytes_list@.len(),
            encoded == byte_strings(tx_bytes_list@),
            encoded == encoded_transactions(*request),
            transactions@.len() == i,
            all_decodable(encoded.take(i as int)),
            forall|k: int| 0 <= k < i ==> (#[trigger] transactions@[k]).wf(),
            forall|k: int|
                0 <= k < i ==> enveloped_transaction(encoded[k]) == Some(
                    ((#[trigger] transactions@[k]).hash@, transactions@[k].rlp@),
                ),
        decreases tx_bytes_list@.len() - i,
    {
        assert(encoded[i as int] == tx_bytes_list@[i as int]@);
        match decode_2718(tx_bytes_list[i].as_slice()) {
            Ok(tx) => {
                transactions.push(tx);
                assert(encoded.take(i + 1) =~= encoded.take(i as int).push(encoded[i as int]));
            },
            Err(e) => {
                return Err(ExtractionError::Undecodable(i, e));
            },
        }
        i += 1;
    }
    if transactions.is_empty() {
        return Err(ExtractionError::NoTransactions);
    }
    proof {
        assert(encoded.take(i as int) =~= encoded);
        assert(transaction_hashes(transactions@) =~= payload_hashes(encoded));
        assert(transaction_values(transactions@) =~= payload_values(encoded));
    }
    Ok(transactions)
}

/// Extract block hash from the execution payload
pub fn extract_block_hash(request: &SubmitBlockRequest) -> (block_hash: B256)
    ensures
        block_hash == request.payload().block_hash,
{
    request.execution_payload().block_hash
}

/// Generate a single Merkle inclusion proof for a constraint transaction. It verifies where the
/// root of the trie was computed before.
pub fn generate_single_proof(
    trie_builder: &mut TransactionTrieBuilder,
    tx_hash: B256,
    transactions_root: B256,
    block_number: u64,
    slot: u64,
) -> (result: Result<ConstraintProof, SingleProofError>)
    requires
        old(trie_builder).wf(),
    ensures
        final(trie_builder).wf(),
        final(trie_builder).is_committed() == old(trie_builder).is_committed(),
        final(trie_builder).hashes() == old(trie_builder).hashes(),
        final(trie_builder).values() == old(trie_builder).values(),
        match result {
            Ok(proof) => {
                &&& proof.tx_hash == tx_hash
                &&& proof.tx_index < old(trie_builder).hashes().len()
                &&& old(trie_builder).hashes()[proof.tx_index as int] == tx_hash@
                &&& forall|j: int|
                    0 <= j < proof.tx_index ==> old(trie_builder).hashes()[j] != tx_hash@
                &&& proof.transactions_root == transactions_root
                &&& byte_strings(proof.proof@) == trie_proof(
                    indexed_entries(old(trie_builder).values()),
                    old(trie_builder).is_committed(),
                    rlp_uint(proof.tx_index as nat),
                )
                &&& proof.block_number == block_number
                &&& proof.slot == slot
                &&& old(trie_builder).is_committed() ==> is_inclusion_proof(
                    (ConstraintProofView {
                        transactions_root: old(trie_builder).root_hash(),
                        ..proof@
                    }),
                    tx_hash,
                    old(trie_builder).hashes(),
                    old(trie_builder).values(),
                    block_number,
                    slot,
                )
                &&& old(trie_builder).hashes().contains(tx_hash@)
            },
            Err(e) => {
                &&& e matches SingleProofError::NotInBlock(ConstraintProofError::TxHashNotFound(h))
                &&& h == tx_hash
                &&& !old(trie_builder).hashes().contains(tx_hash@)
            },
        },
{
    // Find the transaction index
    let tx_index = match trie_builder.find_tx_index(&tx_hash) {
        Ok(index) => index,
        Err(e) => {
            return Err(SingleProofError::NotInBlock(e));
        },
    };
    // Generate the proof
    let proof = match trie_builder.get_proof(tx_index) {
        Ok(proof) => proof,
        Err(e) => {
            return Err(SingleProofError::NotGenerated(e));
        },
    };
    Ok(ConstraintProof { tx_hash, tx_index, proof, transactions_root, block_number, slot })
}

/// Generates Merkle inclusion proofs for the constraint transactions of a submitted block and
/// stores them.
pub fn generate_constraint_proofs(
    request: &SubmitBlockRequest,
    constraint_tx_hashes: &Vec<B256>,
    block_number: u64,
    slot: u64,
    storage: &mut ConstraintProofStorage,
) -> (result: Result<Vec<ProofOutcome>, ProofGenerationError>)
    requires
        old(storage).wf(),
    ensures
        final(storage).wf(),
        match result {
            Ok(outcomes) => {
                &&& encoded_transactions(*request).len() > 0
                &&& all_decodable(encoded_transactions(*request))
                &&& outcomes@.len() == constraint_tx_hashes@.len()
                &&& forall|i: int|
                    0 <= i < outcomes@.len() ==> is_outcome(
                        #[trigger] outcomes@[i],
                        constraint_tx_hashes@[i],
                        payload_hashes(encoded_transactions(*request)),
                        payload_values(encoded_transactions(*request)),
                        block_number,
                        slot,
                    )
                &&& final(storage)@ == storage_with_outcomes(
                    old(storage)@,
                    slot,
                    request.payload().block_hash,
                    block_number,
                    outcomes@,
                )
            },
            Err(ProofGenerationError::Extraction(e)) => {
                &&& final(storage)@ == old(storage)@
                &&& e is NoTransactions <==> encoded_transactions(*request).len() == 0
                &&& e is Undecodable <==> !all_decodable(encoded_transactions(*request))
            },
            Err(_) => false,
        },
{
    // Extract block hash
    let block_hash = extract_block_hash(request);
    // Extract transactions from the execution payload
    let transactions = match extract_transactions(request) {
        Ok(txs) => txs,
        Err(e) => {
            return Err(ProofGenerationError::Extraction(e));
        },
    };
    // Build transaction trie
    let mut trie_builder = match TransactionTrieBuilder::build(transactions.as_slice()) {
        Ok(builder) => builder,
        Err(e) => {
            return Err(ProofGenerationError::TrieBuild(e));
        },
    };
    // Get the transaction root
    let transactions_root = match trie_builder.root() {
        Ok(root) => root,
        Err(e) => {
            return Err(ProofGenerationError::Root(e));
        },
    };
    // Generate proofs for each constraint transaction
    let mut outcomes: Vec<ProofOutcome> = Vec::new();
    let ghost hashes = trie_builder.hashes();
    let ghost values = trie_builder.values();
    let ghost before = storage@;
    let mut i: usize = 0;
    while i < constraint_tx_hashes.len()
        invariant
            i <= constraint_tx_hashes@.len(),
            trie_builder.wf(),
            trie_builder.is_committed(),
            trie_builder.hashes() == hashes,
            trie_builder.values() == values,
            transactions_root@ == trie_builder.root_hash(),
            storage.wf(),
            outcomes@.len() == i,
            forall|k: int|
                0 <= k < i ==> is_outcome(
                    #[trigger] outcomes@[k],
                    constraint_tx_hashes@[k],
                    hashes,
                    values,
                    block_number,
                    slot,
                ),
            storage@ == storage_with_outcomes(before, slot, block_hash, block_number, outcomes@),
        decreases constraint_tx_hashes@.len() - i,
    {
        let tx_hash = constraint_tx_hashes[i];
        let ghost earlier = outcomes@;
        match generate_single_proof(
            &mut trie_builder,
            tx_hash,
            transactions_root,
            block_number,
            slot,
        ) {
            Ok(proof) => {
                // Store proof in storage
                storage.add_proof(slot, block_hash, block_number, proof.duplicate());
                outcomes.push(ProofOutcome::Generated(proof));
            },
            Err(e) => {
                outcomes.push(ProofOutcome::Failed(tx_hash, e));
            },
        }
        assert(outcomes@.drop_last() =~= earlier);
        i += 1;
    }
    Ok(outcomes)
}

/// How many of the outcomes are proofs that were also written to the log.
pub open spec fn successes(outcomes: Seq<ProofOutcome>, logged: Seq<bool>) -> nat
    decreases outcomes.len(),
{
    if outcomes.len() == 0 {
        0
    } else {
        let last = (outcomes.len() - 1) as int;
        successes(outcomes.drop_last(), logged) + if outcomes[last] is Generated && logged[last] {
            1nat
        } else {
            0nat
        }
    }
}

/// Successes are counted one by one: an outcome counts where it is a proof that was also written to
/// the log, wherever it stands.
pub proof fn each_success_counts_once(
    outcomes: Seq<ProofOutcome>,
    logged: Seq<bool>,
    outcome: ProofOutcome,
    was_logged: bool,
)
    requires
        logged.len() == outcomes.len(),
    ensures
        successes(Seq::empty(), Seq::empty()) == 0,
        successes(outcomes.push(outcome), logged.push(was_logged)) == successes(outcomes, logged) + (
        if outcome is Generated && was_logged {
            1int
        } else {
            0int
        }),
        successes(outcomes, logged) <= outcomes.len(),
    decreases outcomes.len(),
{
    assert(outcomes.push(outcome).drop_last() =~= outcomes);
    lemma_log_prefix(outcomes, logged, logged.push(was_logged));
    if outcomes.len() > 0 {
        let n = (outcomes.len() - 1) as int;
        each_success_counts_once(outcomes.drop_last(), logged.take(n), outcomes[n], logged[n]);
        assert(outcomes.drop_last().push(outcomes[n]) =~= outcomes);
        assert(logged.take(n).push(logged[n]) =~= logged);
    }
}

proof fn lemma_log_prefix(outcomes: Seq<ProofOutcome>, short: Seq<bool>, long: Seq<bool>)
    requires
        outcomes.len() <= short.len() <= long.len(),
        forall|i: int| 0 <= i < short.len() ==> short[i] == long[i],
    ensures
        successes(outcomes, short) == successes(outcomes, long),
    decreases outcomes.len(),
{
    if outcomes.len() > 0 {
        lemma_log_prefix(outcomes.drop_last(), short, long);
    }
}

/// Numbers of successes and failures among outcomes. A proof that could not be written to the log
/// counts as a failure, although it is stored.
pub fn count_outcomes(outcomes: &Vec<ProofOutcome>, logged: &Vec<bool>) -> (counts: (usize, usize))
    requires
        logged@.len() == outcomes@.len(),
    ensures
        counts.0 == successes(outcomes@, logged@),
        counts.0 + counts.1 == outcomes@.len(),
{
    let mut success_count: usize = 0;
    let mut failure_count: usize = 0;
    let mut i: usize = 0;
    while i < outcomes.len()
        invariant
            i <= outcomes@.len() == logged@.len(),
            success_count == successes(outcomes@.take(i as int), logged@),
            success_count + failure_count == i,
        decreases outcomes@.len() - i,
    {
        assert(outcomes@.take(i + 1).drop_last() =~= outcomes@.take(i as int));
        let generated = match &outcomes[i] {
            ProofOutcome::Generated(_) => true,
            ProofOutcome::Failed(_, _) => false,
        };
        if generated && logged[i] {
            success_count += 1;
        } else {
            failure_count += 1;
        }
        i += 1;
    }
    assert(outcomes@.take(i as int) =~= outcomes@);
    (success_count, failure_count)
}

/// Observer that generates Merkle inclusion proofs for constraint transactions
/// after blocks are submitted to relays.
pub struct ConstraintProofObserver {
    storage: ConstraintProofStorage,
}

impl ConstraintProofObserver {
    /// The storage that proofs are kept in is in order.
    pub closed spec fn wf(&self) -> bool {
        self.storage.wf()
    }

    /// The proofs that are kept.
    pub closed spec fn stored(&self) -> StorageView {
        self.storage@
    }

    pub fn new(storage: ConstraintProofStorage) -> (observer: Self)
        requires
            storage.wf(),
        ensures
            observer.wf(),
            observer.stored() == storage@,
    {
        ConstraintProofObserver { storage }
    }

    /// The storage that proofs are kept in.
    pub fn storage(&self) -> (storage: &ConstraintProofStorage)
        ensures
            storage@ == self.stored(),
            self.wf() ==> storage.wf(),
    {
        &self.storage
    }

    /// Generates and stores the proofs of a submitted block. Does nothing where the block has no
    /// constraint transactions.
    pub fn block_submitted(
        &mut self,
        slot: u64,
        block_number: u64,
        request: &SubmitBlockRequest,
        constraint_tx_hashes: &Vec<B256>,
    ) -> (result: Option<Result<Vec<ProofOutcome>, ProofGenerationError>>)
        requires
            old(self).wf(),
        ensures
            final(self).wf(),
            result is None <==> constraint_tx_hashes@.len() == 0,
            result is None ==> final(self).stored() == old(self).stored(),
            match result {
                Some(Ok(outcomes)) => {
                    &&& encoded_transactions(*request).len() > 0
                    &&& all_decodable(encoded_transactions(*request))
                    &&& outcomes@.len() == constraint_tx_hashes@.len()
                    &&& forall|i: int|
                        0 <= i < outcomes@.len() ==> is_outcome(
                            #[trigger] outcomes@[i],
                            constraint_tx_hashes@[i],
                            payload_hashes(encoded_transactions(*request)),
                            payload_values(encoded_transactions(*request)),
                            block_number,
                            slot,
                        )
                    &&& final(self).stored() == storage_with_outcomes(
                        old(self).stored(),
                        slot,
                        request.payload().block_hash,
                        block_number,
                        outcomes@,
                    )
                },
                Some(Err(ProofGenerationError::Extraction(e))) => {
                    &&& final(self).stored() == old(self).stored()
                    &&& e is NoTransactions <==> encoded_transactions(*request).len() == 0
                    &&& e is Undecodable <==> !all_decodable(encoded_transactions(*request))
                },
                Some(Err(_)) => false,
                None => true,
            },
    {
        // Check if there are any constraint transactions
        if constraint_tx_hashes.is_empty() {
            return None;
        }
        Some(
            generate_constraint_proofs(
                request,
                constraint_tx_hashes,
                block_number,
                slot,
                &mut self.storage,
            ),
        )
    }
}

} // verus!
