//! Inclusion proofs that a finished block carries for its constraint transactions.

use crate::building::constraint_proofs::{
    hash_values, indexed_entries, transaction_hashes, transaction_values, ConstraintProofError,
    TransactionTrieBuilder,
};
use crate::building::transaction::TransactionSigned;
use crate::building::trie::{proof_value, trie_proof, trie_root};
use crate::building::trie_nodes::decodable_nodes;
use crate::primitives::bytes::{byte_strings, copy_byte_strings, B256};
use crate::primitives::rlp::rlp_uint;
use vstd::prelude::*;

verus! {

/// The path from a transaction to the root of the transaction trie.
#[derive(Debug, Clone)]
pub struct InclusionProof {
    /// Transaction hash
    pub tx_hash: B256,
    /// Index of the transaction in the block
    pub tx_index: usize,
    /// Nodes of the trie
    pub proof: Vec<Vec<u8>>,
}

/// What an `InclusionProof` states.
pub struct InclusionProofView {
    pub tx_hash: Seq<u8>,
    pub tx_index: int,
    pub proof: Seq<Seq<u8>>,
}

impl View for InclusionProof {
    type V = InclusionProofView;

    open spec fn view(&self) -> InclusionProofView {
        InclusionProofView {
            tx_hash: self.tx_hash@,
            tx_index: self.tx_index as int,
            proof: byte_strings(self.proof@),
        }
    }
}

/// Inclusion proofs for the constraint transactions of a block.
#[derive(Debug, Clone)]
pub struct ConstraintProofs {
    /// Root of the block's transaction trie
    pub transactions_root: B256,
    /// Block number
    pub block_number: u64,
    /// One proof for each constraint transaction
    pub proofs: Vec<InclusionProof>,
}

/// What `ConstraintProofs` state.
pub struct ConstraintProofsView {
    pub transactions_root: Seq<u8>,
    pub block_number: u64,
    pub proofs: Seq<InclusionProofView>,
}

/// What the proofs in a list state.
pub open spec fn proof_views(proofs: Seq<InclusionProof>) -> Seq<InclusionProofView> {
    proofs.map_values(|proof: InclusionProof| proof@)
}

impl View for ConstraintProofs {
    type V = ConstraintProofsView;

    open spec fn view(&self) -> ConstraintProofsView {
        ConstraintProofsView {
            transactions_root: self.transactions_root@,
            block_number: self.block_number,
            proofs: proof_views(self.proofs@),
        }
    }
}

impl ConstraintProofs {
    /// A copy of the proofs.
    pub fn duplicate(&self) -> (copy: ConstraintProofs)
        ensures
            copy@ == self@,
            copy.transactions_root == self.transactions_root,
            copy.block_number == self.block_number,
            copy.proofs@.len() == self.proofs@.len(),
            forall|i: int|
                0 <= i < self.proofs@.len() ==> (#[trigger] copy.proofs@[i])@ == self.proofs@[i]@,
    {
        let mut proofs: Vec<InclusionProof> = Vec::new();
        let mut i: usize = 0;
        while i < self.proofs.len()
            invariant
                i <= self.proofs@.len(),
                proofs@.len() == i,
                forall|k: int| 0 <= k < i ==> (#[trigger] proofs@[k])@ == self.proofs@[k]@,
            decreases self.proofs@.len() - i,
        {
            let proof = &self.proofs[i];
            proofs.push(
                InclusionProof {
                    tx_hash: proof.tx_hash,
                    tx_index: proof.tx_index,
                    proof: copy_byte_strings(proof.proof.as_slice()),
                },
            );
            i += 1;
        }
        assert(proof_views(proofs@) =~= proof_views(self.proofs@));
        ConstraintProofs {
            transactions_root: self.transactions_root,
            block_number: self.block_number,
            proofs,
        }
    }
}

impl Default for ConstraintProofs {
    fn default() -> (proofs: Self)
        ensures
            proofs@ == no_proofs(),
    {
        let proofs = ConstraintProofs {
            transactions_root: [0;32],
            block_number: 0,
            proofs: Vec::new(),
        };
        assert(proofs@.transactions_root =~= no_proofs().transactions_root);
        assert(proofs@.proofs =~= no_proofs().proofs);
        proofs
    }
}

/// The proofs of a block of which nothing has been proved.
pub open spec fn no_proofs() -> ConstraintProofsView {
    ConstraintProofsView {
        transactions_root: Seq::new(32, |i: int| 0u8),
        block_number: 0,
        proofs: Seq::empty(),
    }
}

/// Whether a block whose transactions have the given hashes holds all the wanted ones.
pub open spec fn all_in_block(hashes: Seq<Seq<u8>>, wanted: Seq<Seq<u8>>) -> bool {
    forall|i: int| 0 <= i < wanted.len() ==> hashes.contains(#[trigger] wanted[i])
}

/// The first wanted hash that is not among the given ones.
pub open spec fn first_missing(hashes: Seq<Seq<u8>>, wanted: Seq<B256>) -> B256
    decreases wanted.len(),
{
    if wanted.len() <= 1 || !hashes.contains(wanted.first()@) {
        wanted.first()
    } else {
        first_missing(hashes, wanted.drop_first())
    }
}

proof fn lemma_first_missing(hashes: Seq<Seq<u8>>, wanted: Seq<B256>, i: int)
    requires
        0 <= i < wanted.len(),
        !hashes.contains(wanted[i]@),
        forall|k: int| 0 <= k < i ==> hashes.contains((#[trigger] wanted[k])@),
    ensures
        first_missing(hashes, wanted) == wanted[i],
    decreases i,
{
    if i > 0 {
        assert(hashes.contains(wanted[0]@));
        let rest = wanted.drop_first();
        assert forall|k: int| 0 <= k < i - 1 implies hashes.contains((#[trigger] rest[k])@) by {
            assert(rest[k] == wanted[k + 1]);
        }
        lemma_first_missing(hashes, rest, i - 1);
    }
}

/// Where not all wanted hashes are among the given ones, the missing one that is named is the first
/// such: those before it are there.
pub proof fn first_missing_is_first(hashes: Seq<Seq<u8>>, wanted: Seq<B256>) -> (i: int)
    requires
        exists|k: int| 0 <= k < wanted.len() && !hashes.contains((#[trigger] wanted[k])@),
    ensures
        0 <= i < wanted.len(),
        first_missing(hashes, wanted) == wanted[i],
        !hashes.contains(wanted[i]@),
        forall|k: int| 0 <= k < i ==> hashes.contains((#[trigger] wanted[k])@),
    decreases wanted.len(),
{
    let k = choose|k: int| 0 <= k < wanted.len() && !hashes.contains((#[trigger] wanted[k])@);
    if !hashes.contains(wanted[0]@) {
        0
    } else {
        let rest = wanted.drop_first();
        assert(!hashes.contains(rest[k - 1]@));
        let i = first_missing_is_first(hashes, rest);
        assert forall|j: int| 0 <= j < i + 1 implies hashes.contains((#[trigger] wanted[j])@) by {
            if j > 0 {
                assert(hashes.contains(rest[j - 1]@));
            }
        }
        i + 1
    }
}

/// The proof of the transaction with hash `tx_hash`, in a block whose transactions have the given
/// hashes and encodings: that of its first occurrence.
pub open spec fn inclusion_proof(
    hashes: Seq<Seq<u8>>,
    values: Seq<Seq<u8>>,
    tx_hash: Seq<u8>,
) -> InclusionProofView {
    let index = hashes.index_of_first(tx_hash)->0;
    InclusionProofView {
        tx_hash,
        tx_index: index,
        proof: trie_proof(indexed_entries(values), true, rlp_uint(index as nat)),
    }
}

/// The proofs of the wanted transactions, in the order of their hashes.
pub open spec fn inclusion_proofs(
    hashes: Seq<Seq<u8>>,
    values: Seq<Seq<u8>>,
    wanted: Seq<Seq<u8>>,
    block_number: u64,
) -> ConstraintProofsView {
    ConstraintProofsView {
        transactions_root: trie_root(indexed_entries(values)),
        block_number,
        proofs: wanted.map_values(|tx_hash: Seq<u8>| inclusion_proof(hashes, values, tx_hash)),
    }
}

/// Whether the nodes of a proof lead from the given root to the given value.
pub open spec fn leads_to(proof: InclusionProofView, root: Seq<u8>, value: Seq<u8>) -> bool {
    proof_value(root, rlp_uint(proof.tx_index as nat), decodable_nodes(proof.proof)) == Some(
        Some(value),
    )
}

/// Prove transaction inclusion for a list of transactions and a list of constraint transaction
/// hashes. Every proof leads from the transactions root to the encoding of the transaction that
/// it is for. Fails on the first hash that is not in the block.
pub fn prove_transaction_inclusion(
    transactions: &[TransactionSigned],
    constraint_tx_hashes: &[B256],
    block_number: u64,
) -> (result: Result<ConstraintProofs, ConstraintProofError>)
    requires
        forall|i: int| 0 <= i < transactions@.len() ==> (#[trigger] transactions@[i]).wf(),
    ensures
        result is Ok <==> all_in_block(
            transaction_hashes(transactions@),
            hash_values(constraint_tx_hashes@),
        ),
        match result {
            Ok(proofs) => {
                &&& proofs@ == inclusion_proofs(
                    transaction_hashes(transactions@),
                    transaction_values(transactions@),
                    hash_values(constraint_tx_hashes@),
                    block_number,
                )
                &&& forall|i: int|
                    0 <= i < proofs@.proofs.len() ==> {
                        let proof = #[trigger] proofs@.proofs[i];
                        &&& 0 <= proof.tx_index < transactions@.len()
                        &&& transactions@[proof.tx_index].hash@ == constraint_tx_hashes@[i]@
                        &&& leads_to(
                            proof,
                            proofs@.transactions_root,
                            transactions@[proof.tx_index].rlp@,
                        )
                    }
            },
            Err(e) => e == ConstraintProofError::TxHashNotFound(
                first_missing(transaction_hashes(transactions@), constraint_tx_hashes@),
            ),
        },
{
    // Build transaction trie
    let mut prover = match TransactionTrieBuilder::build(transactions) {
        Ok(builder) => builder,
        Err(e) => {
            return Err(e);
        },
    };
    let transactions_root = match prover.root() {
        Ok(root) => root,
        Err(e) => {
            return Err(e);
        },
    };
    let ghost hashes = transaction_hashes(transactions@);
    let ghost values = transaction_values(transactions@);
    let ghost wanted = hash_values(constraint_tx_hashes@);
    // Prove constraints
    let mut proofs: Vec<InclusionProof> = Vec::new();
    let mut i: usize = 0;
    while i < constraint_tx_hashes.len()
        invariant
            i <= constraint_tx_hashes@.len(),
            hashes == transaction_hashes(transactions@),
            values == transaction_values(transactions@),
            wanted == hash_values(constraint_tx_hashes@),
            prover.wf(),
            prover.is_committed(),
            prover.hashes() == hashes,
            prover.values() == values,
            transactions_root@ == trie_root(indexed_entries(values)),
            proofs@.len() == i,
            forall|k: int| 0 <= k < i ==> hashes.contains(#[trigger] wanted[k]),
            forall|k: int|
                0 <= k < i ==> (#[trigger] proofs@[k])@ == inclusion_proof(
                    hashes,
                    values,
                    wanted[k],
                ),
            forall|k: int|
                0 <= k < i ==> {
                    let proof = (#[trigger] proofs@[k])@;
                    &&& 0 <= proof.tx_index < transactions@.len()
                    &&& transactions@[proof.tx_index].hash@ == constraint_tx_hashes@[k]@
                    &&& leads_to(proof, transactions_root@, transactions@[proof.tx_index].rlp@)
                },
        decreases constraint_tx_hashes@.len() - i,
    {
        let tx_hash = constraint_tx_hashes[i];
        assert(wanted[i as int] == tx_hash@);
        let tx_index = match prover.find_tx_index(&tx_hash) {
            Ok(index) => index,
            Err(e) => {
                proof {
                    assert forall|k: int| 0 <= k < i implies hashes.contains(
                        (#[trigger] constraint_tx_hashes@[k])@,
                    ) by {
                        assert(constraint_tx_hashes@[k]@ == wanted[k]);
                    }
                    lemma_first_missing(hashes, constraint_tx_hashes@, i as int);
                    assert(!all_in_block(hashes, wanted));
                }
                return Err(e);
            },
        };
        let proof = match prover.get_proof(tx_index) {
            Ok(proof) => proof,
            Err(e) => {
                return Err(e);
            },
        };
        proof {
            hashes.index_of_first_ensures(tx_hash@);
            assert(hashes.contains(hashes[tx_index as int]));
            assert(hashes[tx_index as int] == transactions@[tx_index as int].hash@);
            assert(values[tx_index as int] == transactions@[tx_index as int].rlp@);
        }
        proofs.push(InclusionProof { tx_hash, tx_index, proof });
        i += 1;
    }
    let result = ConstraintProofs { transactions_root, block_number, proofs };
    proof {
        let expected = inclusion_proofs(hashes, values, wanted, block_number);
        assert(result@.proofs =~= expected.proofs);
        assert forall|k: int| 0 <= k < result@.proofs.len() implies {
            let proof = #[trigger] result@.proofs[k];
            &&& 0 <= proof.tx_index < transactions@.len()
            &&& transactions@[proof.tx_index].hash@ == constraint_tx_hashes@[k]@
            &&& leads_to(proof, result@.transactions_root, transactions@[proof.tx_index].rlp@)
        } by {
            assert(result@.proofs[k] == proofs@[k]@);
        }
    }
    Ok(result)
}

/// The proofs of a block are one for each wanted transaction, in the order that they are wanted in:
/// each names its transaction and the first place where the block holds it, with the nodes on the
/// path to that place in the trie over the block's transactions. With them come the root of that
/// trie and the number of the block.
pub proof fn proof_is_of_the_first_occurrence(
    hashes: Seq<Seq<u8>>,
    values: Seq<Seq<u8>>,
    wanted: Seq<Seq<u8>>,
    block_number: u64,
    i: int,
)
    requires
        0 <= i < wanted.len(),
        exists|k: int| 0 <= k < hashes.len() && hashes[k] == wanted[i],
    ensures
        ({
            let proofs = inclusion_proofs(hashes, values, wanted, block_number);
            let proof = proofs.proofs[i];
            &&& proofs.proofs.len() == wanted.len()
            &&& proofs.block_number == block_number
            &&& proofs.transactions_root == trie_root(indexed_entries(values))
            &&& proof.tx_hash == wanted[i]
            &&& 0 <= proof.tx_index < hashes.len()
            &&& hashes[proof.tx_index] == wanted[i]
            &&& forall|k: int| 0 <= k < proof.tx_index ==> hashes[k] != wanted[i]
            &&& proof.proof == trie_proof(
                indexed_entries(values),
                true,
                rlp_uint(proof.tx_index as nat),
            )
        }),
{
    let k = choose|k: int| 0 <= k < hashes.len() && hashes[k] == wanted[i];
    assert(hashes.contains(hashes[k]));
    hashes.index_of_first_ensures(wanted[i]);
}

} // verus!
