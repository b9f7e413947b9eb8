use alloy_consensus::{EthereumTxEnvelope, SignableTransaction, TxEip1559, TxEip4844};
use alloy_eips::eip2718::Encodable2718;
use alloy_primitives::{Signature, TxKind};
use rbuilder_constraints::constraint_input::bundles::{
    constraint_to_individual_bundles, payloads_to_individual_bundles, Bundle, BundleError,
    BundleVersion,
};
use rbuilder_constraints::constraint_input::rpc_server::{
    answer_to, submit, SendOutcome, Submission, SubmitAction, SubmitEvent, SubmitStep,
    SUBMIT_CONSTRAINTS,
};
use rbuilder_constraints::primitives::constraints::{Constraints, ConstraintsMessage};

type Envelope = EthereumTxEnvelope<TxEip4844>;

fn envelope(nonce: u64) -> Envelope {
    let tx = TxEip1559 {
        chain_id: 1,
        nonce,
        gas_limit: 21000,
        max_fee_per_gas: 1000000000,
        max_priority_fee_per_gas: 1,
        to: TxKind::Call(alloy_primitives::Address::ZERO),
        value: alloy_primitives::U256::from(5),
        access_list: Default::default(),
        input: Default::default(),
    };
    Envelope::Eip1559(tx.into_signed(Signature::test_signature()))
}

fn constraints(block: u64, transactions: Vec<Vec<u8>>) -> Constraints {
    Constraints { message: ConstraintsMessage { block, transactions } }
}

fn assert_constraint_bundle(bundle: &Bundle, block: Option<u64>, hash: [u8; 32], tx: &Envelope) {
    assert_eq!(bundle.version, BundleVersion::V2);
    assert_eq!(bundle.block, block);
    assert_eq!(bundle.hash, hash);
    assert_eq!(bundle.txs.len(), 1);
    assert_eq!(bundle.txs[0].hash, tx.tx_hash().0);
    assert_eq!(bundle.txs[0].rlp, alloy_rlp::encode(tx));
    assert!(bundle.reverting_tx_hashes.is_empty());
    assert!(bundle.dropping_tx_hashes.is_empty());
    assert!(bundle.replacement_data.is_none() && bundle.refund.is_none());
    assert!(bundle.signer.is_none() && bundle.refund_identity.is_none());
    assert!(bundle.external_hash.is_none());
    assert!(bundle.min_timestamp.is_none() && bundle.max_timestamp.is_none());
    assert_eq!(uuid::Uuid::from_bytes(bundle.uuid).get_version_num(), 4);
    assert_eq!(uuid::Uuid::from_bytes(bundle.uuid).get_variant(), uuid::Variant::RFC4122);
}

#[test]
fn each_transaction_becomes_a_bundle() {
    let txs = [envelope(0), envelope(1)];
    let c = constraints(9, txs.iter().map(|tx| tx.encoded_2718()).collect());
    let before = time::OffsetDateTime::now_utc().unix_timestamp_nanos();
    let bundles = constraint_to_individual_bundles(&c).unwrap();
    assert_eq!(bundles.len(), 2);
    for (bundle, tx) in bundles.iter().zip(&txs) {
        assert_constraint_bundle(bundle, Some(9), c.hash(), tx);
        assert!(bundle.metadata.received_at.unix_nanos >= before);
    }
    assert_ne!(bundles[0].uuid, bundles[1].uuid);
}

#[test]
fn first_undecodable_transaction_is_named() {
    let c = constraints(9, vec![envelope(0).encoded_2718(), vec![0x02], vec![0x03]]);
    assert!(matches!(
        constraint_to_individual_bundles(&c),
        Err(BundleError::Transaction(1, _))
    ));
}

#[test]
fn each_payload_becomes_a_bundle() {
    let txs = [envelope(0), envelope(1)];
    let payloads = txs.iter().map(|tx| Some(tx.encoded_2718())).collect();
    let bundles = payloads_to_individual_bundles(&payloads).unwrap();
    assert_eq!(bundles.len(), 2);
    for (bundle, tx) in bundles.iter().zip(&txs) {
        assert_constraint_bundle(bundle, None, tx.tx_hash().0, tx);
    }
    let encoded = envelope(0).encoded_2718();
    assert!(matches!(
        payloads_to_individual_bundles(&vec![Some(encoded.clone()), None, Some(vec![])]),
        Err(BundleError::Payload(1))
    ));
    assert!(matches!(
        payloads_to_individual_bundles(&vec![Some(encoded), Some(vec![]), None]),
        Err(BundleError::Transaction(1, _))
    ));
}

fn perform(step: SubmitStep) -> (Submission, SubmitAction) {
    match step {
        SubmitStep::Perform(submission, action) => (submission, action),
        other => panic!("{other:?}"),
    }
}

#[test]
fn bundles_are_sent_before_the_constraints() {
    let txs = [envelope(0), envelope(1)];
    let c = constraints(42, txs.iter().map(|tx| tx.encoded_2718()).collect());
    let (submission, action) = perform(submit(Some(c.clone())));
    assert!(matches!(action, SubmitAction::SendBundle(b) if b.txs[0].hash == txs[0].tx_hash().0));
    let (submission, action) = perform(submission.advance(SubmitEvent::BundleSent { ok: false }));
    assert!(matches!(action, SubmitAction::SendBundle(b) if b.txs[0].hash == txs[1].tx_hash().0));
    let (submission, action) = perform(submission.advance(SubmitEvent::BundleSent { ok: true }));
    assert!(matches!(action, SubmitAction::SendConstraints(sent) if sent == c));
    assert_eq!(submission.sent_count(), 1);
    match submission.advance(SubmitEvent::ConstraintsSent(SendOutcome::Sent)) {
        SubmitStep::Respond(Ok(text)) => assert_eq!(text, "block_42"),
        other => panic!("{other:?}"),
    }
}

#[test]
fn constraints_are_sent_even_without_bundles() {
    let c = constraints(42, vec![vec![0x02]]);
    let (submission, action) = perform(submit(Some(c.clone())));
    assert!(matches!(action, SubmitAction::SendConstraints(sent) if sent == c));
    let step = submission.advance(SubmitEvent::BundleSent { ok: true });
    let SubmitStep::Unexpected(submission) = step else {
        panic!("{step:?}");
    };
    assert!(matches!(
        submission.advance(SubmitEvent::ConstraintsSent(SendOutcome::Sent)),
        SubmitStep::Respond(Ok(_))
    ));
}

#[test]
fn submission_is_answered() {
    let error = answer_to(1, SendOutcome::Timeout).unwrap_err();
    assert_eq!((error.code, error.message.as_str()), (-32000, "overloaded"));
    let error = answer_to(1, SendOutcome::Closed).unwrap_err();
    assert_eq!((error.code, error.message.as_str()), (-32603, "internal error"));
    assert_eq!(answer_to(u64::MAX, SendOutcome::Sent).unwrap(), "block_18446744073709551615");
    for step in [submit(None), submit(Some(constraints(1, vec![vec![1]; 257])))] {
        match step {
            SubmitStep::Respond(Err(e)) => {
                assert_eq!((e.code, e.message.as_str()), (-32602, "invalid constraints"));
            }
            other => panic!("{other:?}"),
        }
    }
    assert_eq!(SUBMIT_CONSTRAINTS, "submitConstraints");
}
