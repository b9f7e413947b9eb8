use rbuilder_constraints::mev_boost::block_merging::{
    extract_submission_metadata, BlockMergingData, BundleOrder, Order,
    SignedBidSubmissionWithMergingData,
};
use rbuilder_constraints::mev_boost::relay_submission::{
    prepare_submission, Encoding, RelayConfig, SubmissionBody,
};
use rbuilder_constraints::mev_boost::submission::{ExecutionPayload, SubmitBlockRequest};

#[test]
fn all_transactions_are_mergeable() {
    let data = BlockMergingData::for_all_transactions([7u8; 20], 3);
    assert!(data.allow_appending);
    assert_eq!(data.builder_address, [7u8; 20]);
    assert_eq!(data.merge_orders.len(), 3);
    for (i, order) in data.merge_orders.iter().enumerate() {
        assert!(matches!(order, Order::Tx(tx) if tx.index == i && tx.can_revert));
    }
    assert!(!data.is_default());
}

#[test]
fn default_merging_data_is_default() {
    let data = BlockMergingData::default();
    assert!(data.is_default());
    assert_eq!(data.builder_address, [0u8; 20]);
    let none = BlockMergingData::for_all_transactions([0u8; 20], 0);
    assert!(!none.is_default());
    let bundle = BundleOrder { txs: vec![0], reverting_txs: vec![], dropping_txs: vec![] };
    let one = BlockMergingData { merge_orders: vec![Order::Bundle(bundle)], ..data };
    assert!(!one.is_default());
}

#[test]
fn metadata_is_read_off_a_submission() {
    let payload = ExecutionPayload {
        fee_recipient: [3u8; 20],
        block_hash: [0u8; 32],
        transactions: vec![vec![1], vec![2]],
    };
    let request = SubmitBlockRequest::Fulu(payload);
    let (fee_recipient, count) = extract_submission_metadata(&request);
    assert_eq!((fee_recipient, count), ([3u8; 20], 2));
    let submission = SignedBidSubmissionWithMergingData {
        submission: request,
        merging_data: BlockMergingData::for_all_transactions(fee_recipient, count),
    };
    assert_eq!(submission.merging_data.merge_orders.len(), 2);
}

#[test]
fn merging_relay_gets_merging_data_as_json() {
    let payload = ExecutionPayload {
        fee_recipient: [3u8; 20],
        block_hash: [4u8; 32],
        transactions: vec![vec![1], vec![2]],
    };
    let request = SubmitBlockRequest::Electra(payload);
    let relay = RelayConfig { supports_block_merging: true, encoding: Encoding::Ssz };
    let prepared = prepare_submission(request.clone(), relay);
    assert!(prepared.x_mergeable);
    assert_eq!(prepared.encoding, Encoding::Json);
    let SubmissionBody::WithMergingData(wrapped) = prepared.body else {
        panic!("not wrapped");
    };
    assert_eq!(wrapped.submission.execution_payload().block_hash, [4u8; 32]);
    assert_eq!(wrapped.merging_data.builder_address, [3u8; 20]);
    assert_eq!(wrapped.merging_data.merge_orders.len(), 2);
    for encoding in [Encoding::Json, Encoding::Ssz] {
        let relay = RelayConfig { supports_block_merging: false, encoding };
        let prepared = prepare_submission(request.clone(), relay);
        assert!(!prepared.x_mergeable);
        assert_eq!(prepared.encoding, encoding);
        assert!(matches!(prepared.body, SubmissionBody::Plain(SubmitBlockRequest::Electra(_))));
    }
}
