use alloy_consensus::{EthereumTxEnvelope, SignableTransaction, TxEip4844, TxLegacy};
use alloy_primitives::{Signature, TxKind};
use rbuilder_constraints::block_output::constraint_prover::prove_transaction_inclusion;
use rbuilder_constraints::building::constraint_proofs::{
    ConstraintProofError, TransactionTrieBuilder,
};
use rbuilder_constraints::building::transaction::TransactionSigned;
use rbuilder_constraints::building::trie_nodes::{check_node, keep_decodable};

type Envelope = EthereumTxEnvelope<TxEip4844>;

fn legacy(nonce: u64, value: u64) -> TransactionSigned {
    let tx = TxLegacy {
        nonce,
        gas_price: 1000000000,
        gas_limit: 21000,
        to: TxKind::Call(alloy_primitives::Address::ZERO),
        value: alloy_primitives::U256::from(value),
        input: Default::default(),
        chain_id: Some(1),
    };
    let envelope = Envelope::Legacy(tx.into_signed(Signature::test_signature()));
    TransactionSigned { hash: envelope.tx_hash().0, rlp: alloy_rlp::encode(&envelope) }
}

fn block(count: u64) -> Vec<TransactionSigned> {
    (0..count).map(|n| legacy(n, 100 * (n + 1))).collect()
}

#[test]
fn test_build_trie_and_generate_proof() {
    let tx1 = legacy(0, 100);
    let tx2 = legacy(1, 200);
    let transactions = vec![tx1.clone(), tx2.clone()];

    // Build trie
    let mut builder = TransactionTrieBuilder::build(&transactions).unwrap();

    // Get root
    let root = builder.root().unwrap();
    assert_ne!(root, [0u8; 32]);

    // Generate proof for first transaction
    let proof = builder.get_proof(0).unwrap();
    assert!(!proof.is_empty());

    // Find transaction index
    let tx1_hash = tx1.hash;
    let index = builder.find_tx_index(&tx1_hash).unwrap();
    assert_eq!(index, 0);

    // Verify proof
    let verified = builder.verify_proof(0, &proof, &root);
    assert!(verified.is_ok());
}

#[test]
fn every_proof_gives_the_encoded_transaction_back() {
    for count in [1u64, 2, 3, 17, 130, 260] {
        let transactions = block(count);
        let mut builder = TransactionTrieBuilder::build(&transactions).unwrap();
        let root = builder.root().unwrap();
        for (index, tx) in transactions.iter().enumerate() {
            let proof = builder.get_proof(index).unwrap();
            assert_eq!(keep_decodable(&proof), proof);
            assert_eq!(builder.verify_proof(index, &proof, &root).unwrap(), tx.rlp);
        }
    }
}

#[test]
fn root_of_the_empty_trie() {
    let mut builder = TransactionTrieBuilder::new();
    let expected = hex::decode("56e81f171bcc55a6ff8345e692c0f86e5b48e01b996cadc001622fb5e363b421");
    assert_eq!(builder.root().unwrap().to_vec(), expected.unwrap());
    let mut builder = TransactionTrieBuilder::default();
    assert!(matches!(builder.get_proof(0), Err(ConstraintProofError::TxNotFound(0))));
}

#[test]
fn root_of_one_transaction_is_the_hash_of_its_leaf() {
    let tx = legacy(0, 100);
    let mut builder = TransactionTrieBuilder::build(&[tx.clone()]).unwrap();
    // The key of index 0 is the byte 0x80; a leaf holds its compact path and the value.
    let mut payload = vec![0x82u8, 0x20, 0x80];
    assert!(tx.rlp.len() > 55 && tx.rlp.len() < 256);
    payload.extend([0xb8, tx.rlp.len() as u8]);
    payload.extend(&tx.rlp);
    assert!(payload.len() < 256);
    let mut leaf = vec![0xf8u8, payload.len() as u8];
    leaf.extend(&payload);
    assert_eq!(builder.root().unwrap(), alloy_primitives::keccak256(&leaf).0);
    assert_eq!(builder.get_proof(0).unwrap(), vec![leaf]);
}

#[test]
fn unknown_transactions_are_not_found() {
    let transactions = block(2);
    let mut builder = TransactionTrieBuilder::build(&transactions).unwrap();
    builder.root().unwrap();
    assert!(matches!(builder.get_proof(2), Err(ConstraintProofError::TxNotFound(2))));
    assert!(matches!(builder.get_tx_hash(2), Err(ConstraintProofError::TxNotFound(2))));
    assert_eq!(builder.get_tx_hash(1).unwrap(), transactions[1].hash);
    assert!(matches!(
        builder.find_tx_index(&[9u8; 32]),
        Err(ConstraintProofError::TxHashNotFound(h)) if h == [9u8; 32]
    ));
}

#[test]
fn first_of_equal_transactions_is_found() {
    let tx = legacy(0, 100);
    let builder = TransactionTrieBuilder::build(&[legacy(1, 7), tx.clone(), tx.clone()]).unwrap();
    assert_eq!(builder.find_tx_index(&tx.hash).unwrap(), 1);
}

#[test]
fn proof_of_absence_is_no_proof() {
    let transactions = block(2);
    let mut builder = TransactionTrieBuilder::build(&transactions).unwrap();
    let root = builder.root().unwrap();
    let proof = builder.get_proof(0).unwrap();
    // The root branches at the first nibble; nothing is below that of index 20.
    assert!(matches!(
        builder.verify_proof(20, &proof, &root),
        Err(ConstraintProofError::InvalidProof)
    ));
}

#[test]
fn proof_proves_nothing_at_another_index() {
    let transactions = block(20);
    let mut builder = TransactionTrieBuilder::build(&transactions).unwrap();
    let root = builder.root().unwrap();
    for index in 0..20 {
        let proof = builder.get_proof(index).unwrap();
        for other in 0..25 {
            // Whatever is accepted is the transaction at that index.
            if let Ok(value) = builder.verify_proof(other, &proof, &root) {
                assert!(other < 20);
                assert_eq!(value, transactions[other].rlp);
            }
        }
    }
}

#[test]
fn proof_against_another_root_fails() {
    let transactions = block(3);
    let mut builder = TransactionTrieBuilder::build(&transactions).unwrap();
    builder.root().unwrap();
    let proof = builder.get_proof(0).unwrap();
    assert!(matches!(
        builder.verify_proof(0, &proof, &[1u8; 32]),
        Err(ConstraintProofError::TrieError(_))
    ));
}

#[test]
fn undecodable_nodes_count_as_missing() {
    let transactions = block(3);
    let mut builder = TransactionTrieBuilder::build(&transactions).unwrap();
    let root = builder.root().unwrap();
    let proof = builder.get_proof(1).unwrap();
    // A leaf whose path has no valid flag.
    let bad = vec![0xc2u8, 0x40, 0x01];
    assert!(!check_node(&bad));
    assert!(check_node(&[]));
    assert!(check_node(&proof[0]));
    let mut padded = vec![vec![], bad.clone(), vec![0xc0]];
    padded.extend(proof.clone());
    assert_eq!(keep_decodable(&padded).len(), padded.len() - 1);
    assert_eq!(builder.verify_proof(1, &padded, &root).unwrap(), transactions[1].rlp);
    let bad_root = alloy_primitives::keccak256(&bad).0;
    assert!(matches!(
        builder.verify_proof(1, &[bad], &bad_root),
        Err(ConstraintProofError::TrieError(_))
    ));
}

#[test]
fn batch_proofs_lead_to_the_wanted_transactions() {
    let transactions = block(5);
    let wanted = [transactions[3].hash, transactions[1].hash, transactions[3].hash];
    let proofs = prove_transaction_inclusion(&transactions, &wanted, 77).unwrap();
    let mut builder = TransactionTrieBuilder::build(&transactions).unwrap();
    let root = builder.root().unwrap();
    assert_eq!(proofs.transactions_root, root);
    assert_eq!(proofs.block_number, 77);
    let indices: Vec<usize> = proofs.proofs.iter().map(|p| p.tx_index).collect();
    assert_eq!(indices, vec![3, 1, 3]);
    for (proof, hash) in proofs.proofs.iter().zip(wanted) {
        assert_eq!(proof.tx_hash, hash);
        let value = builder.verify_proof(proof.tx_index, &proof.proof, &root).unwrap();
        assert_eq!(value, transactions[proof.tx_index].rlp);
    }
    let copy = proofs.duplicate();
    assert_eq!(copy.proofs.len(), 3);
    assert_eq!(copy.proofs[1].proof, proofs.proofs[1].proof);
}

#[test]
fn batch_proof_names_the_first_missing_transaction() {
    let transactions = block(2);
    let wanted = [transactions[0].hash, [5u8; 32], [6u8; 32]];
    assert!(matches!(
        prove_transaction_inclusion(&transactions, &wanted, 1),
        Err(ConstraintProofError::TxHashNotFound(h)) if h == [5u8; 32]
    ));
    let none = prove_transaction_inclusion(&transactions, &[], 1).unwrap();
    assert!(none.proofs.is_empty());
}
