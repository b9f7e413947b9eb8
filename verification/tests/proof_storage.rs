use alloy_consensus::{EthereumTxEnvelope, SignableTransaction, TxEip1559, TxEip4844};
use alloy_eips::eip2718::Encodable2718;
use alloy_primitives::{Signature, TxKind};
use rbuilder_constraints::block_output::constraint_proof_observer::{
    count_outcomes, extract_block_hash, extract_transactions, generate_single_proof,
    ConstraintProofObserver, ExtractionError, ProofGenerationError, ProofOutcome, SingleProofError,
};
use rbuilder_constraints::block_output::constraint_proof_rpc::{
    ConstraintProofRpcConfig, GET_CONSTRAINT_PROOFS,
};
use rbuilder_constraints::block_output::constraint_proof_storage::{
    ConstraintProofStorage, MAX_SLOTS_TO_KEEP,
};
use rbuilder_constraints::building::constraint_proofs::{
    ConstraintProof, ConstraintProofError, TransactionTrieBuilder,
};
use rbuilder_constraints::mev_boost::submission::{ExecutionPayload, SubmitBlockRequest};

type Envelope = EthereumTxEnvelope<TxEip4844>;

fn envelope(nonce: u64) -> Envelope {
    let tx = TxEip1559 {
        chain_id: 1,
        nonce,
        gas_limit: 21000,
        max_fee_per_gas: 1000000000,
        max_priority_fee_per_gas: 1,
        to: TxKind::Call(alloy_primitives::Address::ZERO),
        value: alloy_primitives::U256::from(5),
        access_list: Default::default(),
        input: Default::default(),
    };
    Envelope::Eip1559(tx.into_signed(Signature::test_signature()))
}

fn payload(transactions: Vec<Vec<u8>>) -> ExecutionPayload {
    ExecutionPayload { fee_recipient: [1u8; 20], block_hash: [2u8; 32], transactions }
}

fn sample(tx_index: usize) -> ConstraintProof {
    ConstraintProof {
        tx_hash: [tx_index as u8; 32],
        tx_index,
        proof: vec![vec![1, 2, 3]],
        transactions_root: [4u8; 32],
        block_number: 5,
        slot: 6,
    }
}

#[test]
fn last_slots_are_kept() {
    let mut storage = ConstraintProofStorage::new();
    for slot in [3u64, 1, 7, 2, 5, 4, 6, 10, 9, 8, 12, 11] {
        storage.add_proof(slot, [slot as u8; 32], slot * 10, sample(slot as usize));
    }
    let response = storage.get_recent_proofs();
    let slots: Vec<u64> = response.slots.iter().map(|s| s.slot).collect();
    assert_eq!(MAX_SLOTS_TO_KEEP, 10);
    assert_eq!(slots, vec![12, 11, 10, 9, 8, 7, 6, 5, 4, 3]);
    assert_eq!(response.slots[0].blocks[0].block_number, 120);
    assert_eq!(response.slots[0].blocks[0].proofs[0].tx_index, 12);
}

#[test]
fn proof_for_a_slot_that_is_too_old_is_dropped() {
    let mut storage = ConstraintProofStorage::new();
    for slot in 10u64..20 {
        storage.add_proof(slot, [0u8; 32], 1, sample(0));
    }
    storage.add_proof(9, [0u8; 32], 1, sample(0));
    let slots: Vec<u64> = storage.get_recent_proofs().slots.iter().map(|s| s.slot).collect();
    assert_eq!(slots, vec![19, 18, 17, 16, 15, 14, 13, 12, 11, 10]);
}

#[test]
fn proofs_of_a_block_are_kept_in_order() {
    let mut storage = ConstraintProofStorage::new();
    storage.add_proof(1, [1u8; 32], 100, sample(4));
    storage.add_proof(1, [1u8; 32], 101, sample(2));
    storage.add_proof(1, [2u8; 32], 100, sample(3));
    let response = storage.get_recent_proofs();
    assert_eq!(response.slots.len(), 1);
    assert_eq!(response.slots[0].blocks.len(), 2);
    let block = response.slots[0].blocks.iter().find(|b| b.block_hash == [1u8; 32]).unwrap();
    let indices: Vec<usize> = block.proofs.iter().map(|p| p.tx_index).collect();
    assert_eq!(indices, vec![4, 2]);
    // The number is that of the first proof.
    assert_eq!(block.block_number, 100);
    assert!(ConstraintProofStorage::new().get_recent_proofs().slots.is_empty());
}

#[test]
fn submitted_block_is_proved_and_stored() {
    let txs: Vec<Envelope> = (0..4).map(envelope).collect();
    let encoded: Vec<Vec<u8>> = txs.iter().map(|tx| tx.encoded_2718()).collect();
    let request = SubmitBlockRequest::Electra(payload(encoded));
    let mut observer = ConstraintProofObserver::new(ConstraintProofStorage::new());
    let wanted = vec![txs[2].tx_hash().0, [9u8; 32]];
    let outcomes = observer.block_submitted(50, 500, &request, &wanted).unwrap().unwrap();
    assert_eq!(outcomes.len(), 2);
    let ProofOutcome::Generated(proof) = &outcomes[0] else {
        panic!("no proof");
    };
    assert_eq!((proof.tx_index, proof.block_number, proof.slot), (2, 500, 50));
    assert_eq!(proof.tx_hash, txs[2].tx_hash().0);
    let builder = TransactionTrieBuilder::new();
    assert_eq!(
        builder.verify_proof(2, &proof.proof, &proof.transactions_root).unwrap(),
        alloy_rlp::encode(&txs[2])
    );
    assert!(matches!(
        &outcomes[1],
        ProofOutcome::Failed(
            hash,
            SingleProofError::NotInBlock(ConstraintProofError::TxHashNotFound(h))
        ) if *hash == [9u8; 32] && *h == [9u8; 32]
    ));
    let stored = observer.storage().get_recent_proofs();
    assert_eq!(stored.slots.len(), 1);
    assert_eq!(stored.slots[0].blocks[0].block_hash, [2u8; 32]);
    assert_eq!(stored.slots[0].blocks[0].proofs.len(), 1);
    assert_eq!(count_outcomes(&outcomes, &vec![true, true]), (1, 1));
    assert_eq!(count_outcomes(&outcomes, &vec![false, true]), (0, 2));
}

#[test]
fn single_proof_is_generated_before_the_root_is_known() {
    let txs: Vec<Envelope> = (0..3).map(envelope).collect();
    let encoded = txs.iter().map(|tx| tx.encoded_2718()).collect();
    let transactions = extract_transactions(&SubmitBlockRequest::Fulu(payload(encoded))).unwrap();
    let mut builder = TransactionTrieBuilder::build(&transactions).unwrap();
    let hash = txs[1].tx_hash().0;
    let early = generate_single_proof(&mut builder, hash, [0u8; 32], 5, 6).unwrap();
    assert_eq!((early.tx_index, early.block_number, early.slot), (1, 5, 6));
    let root = builder.root().unwrap();
    let proof = generate_single_proof(&mut builder, hash, root, 5, 6).unwrap();
    assert_eq!(
        builder.verify_proof(1, &proof.proof, &root).unwrap(),
        alloy_rlp::encode(&txs[1])
    );
    assert!(matches!(
        generate_single_proof(&mut builder, [9u8; 32], root, 5, 6),
        Err(SingleProofError::NotInBlock(_))
    ));
}

#[test]
fn block_without_appended_transactions_is_passed_over() {
    let mut observer = ConstraintProofObserver::new(ConstraintProofStorage::new());
    let request = SubmitBlockRequest::Deneb(payload(vec![]));
    assert!(observer.block_submitted(1, 1, &request, &vec![]).is_none());
}

#[test]
fn payload_that_cannot_be_read_is_not_proved() {
    let mut observer = ConstraintProofObserver::new(ConstraintProofStorage::new());
    let empty = SubmitBlockRequest::Capella(payload(vec![]));
    assert!(matches!(
        observer.block_submitted(1, 1, &empty, &vec![[0u8; 32]]),
        Some(Err(ProofGenerationError::Extraction(ExtractionError::NoTransactions)))
    ));
    let bad = SubmitBlockRequest::Fulu(payload(vec![envelope(0).encoded_2718(), vec![0x02]]));
    assert!(matches!(
        observer.block_submitted(1, 1, &bad, &vec![[0u8; 32]]),
        Some(Err(ProofGenerationError::Extraction(ExtractionError::Undecodable(1, _))))
    ));
    assert!(observer.storage().get_recent_proofs().slots.is_empty());
}

#[test]
fn payload_is_read_whatever_the_fork() {
    let tx = envelope(3);
    let encoded = vec![tx.encoded_2718()];
    for request in [
        SubmitBlockRequest::Capella(payload(encoded.clone())),
        SubmitBlockRequest::Deneb(payload(encoded.clone())),
        SubmitBlockRequest::Electra(payload(encoded.clone())),
        SubmitBlockRequest::Fulu(payload(encoded.clone())),
    ] {
        assert_eq!(extract_block_hash(&request), [2u8; 32]);
        let txs = extract_transactions(&request).unwrap();
        assert_eq!(txs[0].hash, tx.tx_hash().0);
        assert_eq!(txs[0].rlp, alloy_rlp::encode(&tx));
        assert_ne!(txs[0].rlp, encoded[0]);
    }
}

#[test]
fn proofs_are_served_on_their_port() {
    let config = ConstraintProofRpcConfig::default();
    assert_eq!(config.server_ip, [0, 0, 0, 0]);
    assert_eq!(config.server_port, 9548);
    assert_eq!(config.max_connections, 100);
    assert_eq!(GET_CONSTRAINT_PROOFS, "getConstraintProofs");
}
