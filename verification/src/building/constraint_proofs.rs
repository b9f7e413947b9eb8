//! Merkle inclusion proofs for constraint transactions.

use crate::building::transaction::TransactionSigned;
use crate::building::trie::{
    proof_collides, proof_value, trie_committed, trie_contents, trie_get_proof, trie_insert,
    trie_new, trie_proof, trie_root, trie_root_hash, trie_verify_proof, PatriciaTrie,
};
use crate::building::trie_nodes::{
    decodable_nodes, decodable_proof_is_kept, is_decodable_node, keep_decodable,
};
use crate::primitives::bytes::{byte_strings, copy_byte_strings, same_hash, B256};
use crate::primitives::rlp::{encode_index, index_keys_are_distinct, rlp_uint};
use vstd::prelude::*;

verus! {

/// Errors that can occur during constraint proof generation
#[derive(Debug)]
pub enum ConstraintProofError {
    /// The trie failed.
    TrieError(eth_trie::TrieError),
    /// Transaction not found at this index
    TxNotFound(usize),
    /// Transaction hash not found in the block
    TxHashNotFound(B256),
    /// The proof says that there is no such transaction.
    InvalidProof,
}

/// Represents a Merkle inclusion proof for a constraint transaction
#[derive(Debug, Clone)]
pub struct ConstraintProof {
    /// Transaction hash
    pub tx_hash: B256,
    /// Index of the transaction in the block
    pub tx_index: usize,
    /// Merkle proof nodes
    pub proof: Vec<Vec<u8>>,
    /// Transaction root hash
    pub transactions_root: B256,
    /// Block number
    pub block_number: u64,
    /// Slot number
    pub slot: u64,
}

/// What a `ConstraintProof` states.
pub struct ConstraintProofView {
    pub tx_hash: Seq<u8>,
    pub tx_index: usize,
    pub proof: Seq<Seq<u8>>,
    pub transactions_root: Seq<u8>,
    pub block_number: u64,
    pub slot: u64,
}

impl View for ConstraintProof {
    type V = ConstraintProofView;

    open spec fn view(&self) -> ConstraintProofView {
        ConstraintProofView {
            tx_hash: self.tx_hash@,
            tx_index: self.tx_index,
            proof: byte_strings(self.proof@),
            transactions_root: self.transactions_root@,
            block_number: self.block_number,
            slot: self.slot,
        }
    }
}

impl ConstraintProof {
    /// A copy of the proof.
    pub fn duplicate(&self) -> (copy: ConstraintProof)
        ensures
            copy@ == self@,
            copy.tx_hash == self.tx_hash,
            copy.tx_index == self.tx_index,
            copy.transactions_root == self.transactions_root,
            copy.block_number == self.block_number,
            copy.slot == self.slot,
            byte_strings(copy.proof@) == byte_strings(self.proof@),
    {
        ConstraintProof {
            tx_hash: self.tx_hash,
            tx_index: self.tx_index,
            proof: copy_byte_strings(self.proof.as_slice()),
            transactions_root: self.transactions_root,
            block_number: self.block_number,
            slot: self.slot,
        }
    }
}

/// Entries of the trie that holds `values` in order: each under the RLP encoding of its index.
pub open spec fn indexed_entries(values: Seq<Seq<u8>>) -> Map<Seq<u8>, Seq<u8>>
    decreases values.len(),
{
    if values.len() == 0 {
        Map::empty()
    } else {
        indexed_entries(values.drop_last()).insert(
            rlp_uint((values.len() - 1) as nat),
            values.last(),
        )
    }
}

/// The entry under an index is the value at that index.
pub proof fn entry_under_index(values: Seq<Seq<u8>>, index: usize)
    requires
        index < values.len() <= usize::MAX,
    ensures
        indexed_entries(values).contains_key(rlp_uint(index as nat)),
        indexed_entries(values)[rlp_uint(index as nat)] == values[index as int],
    decreases values.len(),
{
    let last: usize = (values.len() - 1) as usize;
    index_keys_are_distinct(index, last);
    if index < last {
        entry_under_index(values.drop_last(), index);
    }
}

/// Nothing but the encodings of indices in range is a key.
pub proof fn entries_have_index_keys(values: Seq<Seq<u8>>, key: Seq<u8>)
    requires
        indexed_entries(values).contains_key(key),
    ensures
        exists|i: nat| i < values.len() && key == #[trigger] rlp_uint(i),
    decreases values.len(),
{
    let last = (values.len() - 1) as nat;
    if key == rlp_uint(last) {
        assert(last < values.len() && key == rlp_uint(last));
    } else {
        entries_have_index_keys(values.drop_last(), key);
    }
}

/// The RLP encodings of a list of transactions.
pub open spec fn transaction_values(transactions: Seq<TransactionSigned>) -> Seq<Seq<u8>> {
    transactions.map_values(|tx: TransactionSigned| tx.rlp@)
}

/// The hashes of a list of transactions.
pub open spec fn transaction_hashes(transactions: Seq<TransactionSigned>) -> Seq<Seq<u8>> {
    transactions.map_values(|tx: TransactionSigned| tx.hash@)
}

/// The hashes in a list of hashes.
pub open spec fn hash_values(hashes: Seq<B256>) -> Seq<Seq<u8>> {
    hashes.map_values(|h: B256| h@)
}

/// Builder for transaction Merkle Patricia Trie
pub struct TransactionTrieBuilder {
    trie: PatriciaTrie,
    transactions: Vec<B256>,
    values: Ghost<Seq<Seq<u8>>>,
}

impl TransactionTrieBuilder {
    /// The trie holds one value for each transaction, under its index.
    pub closed spec fn wf(&self) -> bool {
        &&& self.values@.len() == self.transactions@.len()
        &&& trie_contents(self.trie) == indexed_entries(self.values@)
    }

    /// The transaction hashes, in block order.
    pub closed spec fn hashes(&self) -> Seq<Seq<u8>> {
        hash_values(self.transactions@)
    }

    /// The encoded transactions, in block order.
    pub closed spec fn values(&self) -> Seq<Seq<u8>> {
        self.values@
    }

    /// Whether the root was computed, so that proofs reach down to the transactions.
    pub closed spec fn is_committed(&self) -> bool {
        trie_committed(self.trie)
    }

    /// The root hash of the trie over the transactions.
    pub open spec fn root_hash(&self) -> Seq<u8> {
        trie_root(indexed_entries(self.values()))
    }

    /// Create a new trie builder
    pub fn new() -> (builder: Self)
        ensures
            builder.wf(),
            builder.hashes() == Seq::<Seq<u8>>::empty(),
            builder.values() == Seq::<Seq<u8>>::empty(),
            !builder.is_committed(),
    {
        let builder = TransactionTrieBuilder {
            trie: trie_new(),
            transactions: Vec::new(),
            values: Ghost(Seq::empty()),
        };
        assert(builder.hashes() =~= Seq::<Seq<u8>>::empty());
        builder
    }

    /// Build the transaction trie from a list of signed transactions
    pub fn build(transactions: &[TransactionSigned]) -> (result: Result<Self, ConstraintProofError>)
        requires
            forall|i: int| 0 <= i < transactions@.len() ==> (#[trigger] transactions@[i]).wf(),
        ensures
            result is Ok,
            result matches Ok(builder) ==> {
                &&& builder.wf()
                &&& builder.hashes() == transaction_hashes(transactions@)
                &&& builder.values() == transaction_values(transactions@)
                &&& !builder.is_committed()
            },
    {
        let mut builder = Self::new();
        let mut idx: usize = 0;
        while idx < transactions.len()
            invariant
                idx <= transactions@.len(),
                forall|i: int| 0 <= i < transactions@.len() ==> (#[trigger] transactions@[i]).wf(),
                builder.wf(),
                builder.hashes() == transaction_hashes(transactions@.take(idx as int)),
                builder.values() == transaction_values(transactions@.take(idx as int)),
                !builder.is_committed(),
            decreases transactions@.len() - idx,
        {
            let tx = &transactions[idx];
            // Key is RLP-encoded index
            let key = encode_index(idx);
            match trie_insert(&mut builder.trie, key.as_slice(), tx.rlp.as_slice()) {
                Ok(_) => {},
                Err(e) => {
                    return Err(ConstraintProofError::TrieError(e));
                },
            }
            let ghost before = builder.values@;
            let ghost hashes_before = builder.transactions@;
            builder.transactions.push(tx.hash);
            builder.values = Ghost(before.push(tx.rlp@));
            proof {
                let taken = transactions@.take(idx + 1);
                assert(taken.drop_last() =~= transactions@.take(idx as int));
                assert(builder.values@.drop_last() =~= before);
                let prefix = transactions@.take(idx as int);
                assert(taken =~= prefix.push(transactions@[idx as int]));
                assert(transaction_hashes(taken) =~= transaction_hashes(prefix).push(tx.hash@));
                assert(transaction_values(taken) =~= transaction_values(prefix).push(tx.rlp@));
                assert(hash_values(builder.transactions@) =~= hash_values(hashes_before).push(
                    tx.hash@,
                ));
            }
            idx += 1;
        }
        assert(transactions@.take(idx as int) =~= transactions@);
        Ok(builder)
    }

    /// Get the root hash of the trie
    pub fn root(&mut self) -> (result: Result<B256, ConstraintProofError>)
        requires
            old(self).wf(),
        ensures
            final(self).wf(),
            final(self).hashes() == old(self).hashes(),
            final(self).values() == old(self).values(),
            final(self).is_committed(),
            result matches Ok(root) && root@ == old(self).root_hash(),
    {
        match trie_root_hash(&mut self.trie) {
            Ok(root) => Ok(root),
            Err(e) => Err(ConstraintProofError::TrieError(e)),
        }
    }

    /// Generate a proof for a transaction at the given index.
    ///
    /// Once the root has been computed, `verify_proof` of what this returns, at the same index and
    /// against that root, gives the encoded transaction back.
    pub fn get_proof(&mut self, tx_index: usize) -> (result: Result<
        Vec<Vec<u8>>,
        ConstraintProofError,
    >)
        requires
            old(self).wf(),
        ensures
            final(self).wf(),
            final(self).hashes() == old(self).hashes(),
            final(self).values() == old(self).values(),
            final(self).is_committed() == old(self).is_committed(),
            match result {
                Ok(proof) => {
                    &&& tx_index < old(self).hashes().len()
                    &&& proof@.len() > 0
                    &&& byte_strings(proof@) == trie_proof(
                        indexed_entries(old(self).values()),
                        old(self).is_committed(),
                        rlp_uint(tx_index as nat),
                    )
                    &&& decodable_nodes(byte_strings(proof@)) == byte_strings(proof@)
                    &&& old(self).is_committed() ==> proof_value(
                        old(self).root_hash(),
                        rlp_uint(tx_index as nat),
                        decodable_nodes(byte_strings(proof@)),
                    ) == Some(Some(old(self).values()[tx_index as int]))
                },
                Err(ConstraintProofError::TxNotFound(i)) => i == tx_index && tx_index >= old(
                    self,
                ).hashes().len(),
                Err(_) => false,
            },
    {
        if tx_index >= self.transactions.len() {
            return Err(ConstraintProofError::TxNotFound(tx_index));
        }
        proof {
            entry_under_index(self.values@, tx_index);
            let entries = indexed_entries(self.values@);
            assert(entries.contains_key(rlp_uint(tx_index as nat)));
        }
        let key = encode_index(tx_index);
        match trie_get_proof(&mut self.trie, key.as_slice()) {
            Ok(proof) => {
                proof {
                    let nodes = byte_strings(proof@);
                    assert forall|i: int| 0 <= i < nodes.len() implies is_decodable_node(
                        #[trigger] nodes[i],
                    ) by {
                        assert(nodes[i] == proof@[i]@);
                    }
                    decodable_proof_is_kept(nodes);
                }
                Ok(proof)
            },
            Err(e) => Err(ConstraintProofError::TrieError(e)),
        }
    }

    /// Find the index of a transaction by its hash
    pub fn find_tx_index(&self, tx_hash: &B256) -> (result: Result<usize, ConstraintProofError>)
        ensures
            match result {
                Ok(i) => {
                    &&& i < self.hashes().len()
                    &&& self.hashes()[i as int] == tx_hash@
                    &&& forall|j: int| 0 <= j < i ==> self.hashes()[j] != tx_hash@
                },
                Err(ConstraintProofError::TxHashNotFound(h)) => h == *tx_hash
                    && !self.hashes().contains(tx_hash@),
                Err(_) => false,
            },
    {
        let mut i: usize = 0;
        while i < self.transactions.len()
            invariant
                i <= self.transactions@.len(),
                forall|j: int| 0 <= j < i ==> self.hashes()[j] != tx_hash@,
            decreases self.transactions@.len() - i,
        {
            if same_hash(&self.transactions[i], tx_hash) {
                return Ok(i);
            }
            i += 1;
        }
        Err(ConstraintProofError::TxHashNotFound(*tx_hash))
    }

    /// Verify a proof for a transaction at the given index: the value that the proof gives it
    /// under the root. A node that cannot be decoded counts as missing.
    ///
    /// Under the root of a block's transactions, only a transaction of that block is proved, and
    /// at its index, unless nodes share a Keccak-256 hash.
    pub fn verify_proof(&self, tx_index: usize, proof: &[Vec<u8>], root: &B256) -> (result: Result<
        Vec<u8>,
        ConstraintProofError,
    >)
        ensures
            match proof_value(
                root@,
                rlp_uint(tx_index as nat),
                decodable_nodes(byte_strings(proof@)),
            ) {
                Some(Some(value)) => result matches Ok(v) && v@ == value,
                Some(None) => result matches Err(ConstraintProofError::InvalidProof),
                None => result matches Err(ConstraintProofError::TrieError(_)),
            },
            forall|values: Seq<Seq<u8>>|
                {
                    &&& values.len() <= usize::MAX
                    &&& root@ == trie_root(#[trigger] indexed_entries(values))
                    &&& !proof_collides(
                        decodable_nodes(byte_strings(proof@)),
                        indexed_entries(values),
                        rlp_uint(tx_index as nat),
                    )
                } ==> match result {
                    Ok(value) => tx_index < values.len() && value@ == values[tx_index as int],
                    Err(ConstraintProofError::InvalidProof) => tx_index >= values.len(),
                    Err(_) => true,
                },
    {
        let key = encode_index(tx_index);
        let nodes = keep_decodable(proof);
        proof {
            assert forall|values: Seq<Seq<u8>>| values.len() <= usize::MAX implies (
            #[trigger] indexed_entries(values).contains_key(key@) <==> tx_index < values.len()) && (
            tx_index < values.len() ==> indexed_entries(values)[key@] == values[tx_index as int]) by {
                if tx_index < values.len() {
                    entry_under_index(values, tx_index);
                } else if indexed_entries(values).contains_key(key@) {
                    entries_have_index_keys(values, key@);
                    let i = choose|i: nat| i < values.len() && key@ == #[trigger] rlp_uint(i);
                    index_keys_are_distinct(i as usize, tx_index);
                }
            }
        }
        proved_value(trie_verify_proof(&self.trie, root, key.as_slice(), nodes))
    }

    /// Get the transaction hash at the given index
    pub fn get_tx_hash(&self, tx_index: usize) -> (result: Result<B256, ConstraintProofError>)
        ensures
            match result {
                Ok(hash) => tx_index < self.hashes().len() && hash@ == self.hashes()[tx_index as int],
                Err(ConstraintProofError::TxNotFound(i)) => i == tx_index && tx_index
                    >= self.hashes().len(),
                Err(_) => false,
            },
    {
        if tx_index < self.transactions.len() {
            Ok(self.transactions[tx_index])
        } else {
            Err(ConstraintProofError::TxNotFound(tx_index))
        }
    }
}

/// The verdict on a proof, from what the trie made of it.
pub fn proved_value(outcome: Result<Option<Vec<u8>>, eth_trie::TrieError>) -> (result: Result<
    Vec<u8>,
    ConstraintProofError,
>)
    ensures
        match outcome {
            Ok(Some(value)) => result == Ok::<Vec<u8>, ConstraintProofError>(value),
            Ok(None) => result == Err::<Vec<u8>, ConstraintProofError>(
                ConstraintProofError::InvalidProof,
            ),
            Err(e) => result == Err::<Vec<u8>, ConstraintProofError>(
                ConstraintProofError::TrieError(e),
            ),
        },
{
    match outcome {
        Ok(Some(value)) => Ok(value),
        Ok(None) => Err(ConstraintProofError::InvalidProof),
        Err(e) => Err(ConstraintProofError::TrieError(e)),
    }
}

impl Default for TransactionTrieBuilder {
    fn default() -> (builder: Self)
        ensures
            builder.wf(),
            builder.hashes() == Seq::<Seq<u8>>::empty(),
            builder.values() == Seq::<Seq<u8>>::empty(),
            !builder.is_committed(),
    {
        Self::new()
    }
}

/// The hashes and encodings of a list of transactions are theirs, in their order.
pub proof fn transactions_are_listed_in_order(transactions: Seq<TransactionSigned>, i: int)
    ensures
        transaction_hashes(transactions).len() == transactions.len(),
        transaction_values(transactions).len() == transactions.len(),
        0 <= i < transactions.len() ==> transaction_hashes(transactions)[i] == transactions[i].hash@
            && transaction_values(transactions)[i] == transactions[i].rlp@,
{
}

} // verus!
