//! Bundles that bring constraint transactions into the order pipeline.

use crate::building::transaction::{decode_2718, enveloped_transaction, TransactionSigned};
use crate::primitives::bytes::{byte_strings, Address, B256};
use crate::primitives::clock::{now_utc, UtcTime};
use crate::primitives::constraints::{keccak256_of, ssz_constraints, Constraints};
use vstd::prelude::*;

verus! {

/// A universally unique identifier.
pub type Uuid = [u8; 16];

#[derive(Debug, Clone, Copy, PartialEq, Eq, Structural)]
pub enum BundleVersion {
    V1,
    V2,
}

/// When a bundle came in.
#[derive(Debug, Clone, Copy, PartialEq, Eq, Structural)]
pub struct Metadata {
    pub received_at: UtcTime,
}

/// What a bundle replaces.
#[derive(Debug, Clone, Copy, PartialEq, Eq, Structural)]
pub struct ReplacementData {
    /// Number by which versions of a bundle belong together
    pub key: u128,
    pub sequence_number: u64,
}

/// What is paid back of a bundle's profit.
#[derive(Debug, Clone, Copy, PartialEq, Eq)]
pub struct BundleRefund {
    pub percent: u8,
    pub recipient: Address,
    pub tx_hash: B256,
}

/// Transactions that go into a block together.
#[derive(Debug, Clone)]
pub struct Bundle {
    pub version: BundleVersion,
    /// Block that the bundle is for; none if any will do
    pub block: Option<u64>,
    pub min_timestamp: Option<u64>,
    pub max_timestamp: Option<u64>,
    pub txs: Vec<TransactionSigned>,
    /// Transactions that may revert
    pub reverting_tx_hashes: Vec<B256>,
    /// Transactions that may be dropped
    pub dropping_tx_hashes: Vec<B256>,
    pub hash: B256,
    pub uuid: Uuid,
    pub replacement_data: Option<ReplacementData>,
    pub signer: Option<Address>,
    pub refund_identity: Option<Address>,
    pub metadata: Metadata,
    pub refund: Option<BundleRefund>,
    pub external_hash: Option<B256>,
}

/// Whether an identifier is a random one: of version 4, and of the variant that goes with it.
pub open spec fn is_random_uuid(uuid: Uuid) -> bool {
    &&& uuid@[6] / 16 == 4
    &&& uuid@[8] / 64 == 2
}

/// `Uuid::new_v4`: a random identifier, of which nothing else can be said.
#[verifier::external_body]
fn new_uuid() -> (uuid: Uuid)
    ensures
        is_random_uuid(uuid),
{
    *uuid::Uuid::new_v4().as_bytes()
}

/// Whether a bundle brings a constraint transaction, given by its hash and RLP encoding, into the
/// pipeline: alone, with nothing that may revert or be dropped, since constraints must succeed.
pub open spec fn is_constraint_bundle(
    bundle: Bundle,
    block: Option<u64>,
    hash: Seq<u8>,
    tx: (Seq<u8>, Seq<u8>),
) -> bool {
    &&& bundle.version == BundleVersion::V2
    &&& bundle.block == block
    &&& bundle.min_timestamp is None
    &&& bundle.max_timestamp is None
    &&& bundle.txs@.len() == 1
    &&& bundle.txs@[0].hash@ == tx.0
    &&& bundle.txs@[0].rlp@ == tx.1
    &&& bundle.reverting_tx_hashes@.len() == 0
    &&& bundle.dropping_tx_hashes@.len() == 0
    &&& bundle.hash@ == hash
    &&& is_random_uuid(bundle.uuid)
    &&& bundle.replacement_data is None
    &&& bundle.signer is None
    &&& bundle.refund_identity is None
    &&& bundle.refund is None
    &&& bundle.external_hash is None
}

/// A bundle for a constraint transaction, received now.
pub fn constraint_bundle(block: Option<u64>, hash: B256, tx: TransactionSigned) -> (bundle: Bundle)
    ensures
        is_constraint_bundle(bundle, block, hash@, (tx.hash@, tx.rlp@)),
        bundle.version == BundleVersion::V2,
        bundle.block == block,
        bundle.hash == hash,
        bundle.txs@ == seq![tx],
        bundle.reverting_tx_hashes@.len() == 0,
        bundle.dropping_tx_hashes@.len() == 0,
        bundle.min_timestamp is None,
        bundle.max_timestamp is None,
        bundle.replacement_data is None,
        bundle.signer is None,
        bundle.refund_identity is None,
        bundle.refund is None,
        bundle.external_hash is None,
{
    let mut txs: Vec<TransactionSigned> = Vec::new();
    // Single transaction per bundle
    txs.push(tx);
    Bundle {
        version: BundleVersion::V2,
        block,
        min_timestamp: None,
        max_timestamp: None,
        txs,
        reverting_tx_hashes: Vec::new(),
        dropping_tx_hashes: Vec::new(),
        hash,
        uuid: new_uuid(),
        replacement_data: None,
        signer: None,
        refund_identity: None,
        metadata: Metadata { received_at: now_utc() },
        refund: None,
        external_hash: None,
    }
}

/// Why a constraint cannot be brought into the order pipeline.
#[derive(Debug)]
pub enum BundleError {
    /// The inclusion payload of the constraint at this index could not be decoded.
    Payload(usize),
    /// Failed to decode constraint transaction
    Transaction(usize, alloy_eips::eip2718::Eip2718Error),
}

/// Whether the transactions at the first `n` places can be decoded.
pub open spec fn first_decodable(encoded: Seq<Seq<u8>>, n: int) -> bool {
    forall|i: int| 0 <= i < n ==> enveloped_transaction(#[trigger] encoded[i]) is Some
}

/// Convert each transaction in constraint to individual bundles for order pipeline. The bundles
/// are for the block of the constraint, and carry its hash.
pub fn constraint_to_individual_bundles(constraint: &Constraints) -> (result: Result<
    Vec<Bundle>,
    BundleError,
>)
    requires
        constraint.wf(),
    ensures
        ({
            let encoded = byte_strings(constraint.message.transactions@);
            match result {
                Ok(bundles) => {
                    &&& first_decodable(encoded, encoded.len() as int)
                    &&& bundles@.len() == encoded.len()
                    &&& forall|i: int|
                        0 <= i < bundles@.len() ==> is_constraint_bundle(
                            #[trigger] bundles@[i],
                            Some(constraint.message.block),
                            keccak256_of(ssz_constraints(constraint.message.block, encoded)),
                            enveloped_transaction(encoded[i])->0,
                        )
                },
                Err(BundleError::Transaction(i, _)) => {
                    &&& i < encoded.len()
                    &&& first_decodable(encoded, i as int)
                    &&& enveloped_transaction(encoded[i as int]) is None
                },
                Err(BundleError::Payload(_)) => false,
            }
        }),
{
    let ghost encoded = byte_strings(constraint.message.transactions@);
    // Use constraint hash as base for bundle hash
    let hash = constraint.hash();
    let mut bundles: Vec<Bundle> = Vec::new();
    let mut i: usize = 0;
    while i < constraint.message.transactions.len()
        invariant
            i <= constraint.message.transactions@.len(),
            encoded == byte_strings(constraint.message.transactions@),
            hash@ == keccak256_of(ssz_constraints(constraint.message.block, encoded)),
            first_decodable(encoded, i as int),
            bundles@.len() == i,
            forall|k: int|
                0 <= k < i ==> is_constraint_bundle(
                    #[trigger] bundles@[k],
                    Some(constraint.message.block),
                    hash@,
                    enveloped_transaction(encoded[k])->0,
                ),
        decreases constraint.message.transactions@.len() - i,
    {
        assert(encoded[i as int] == constraint.message.transactions@[i as int]@);
        match decode_2718(constraint.message.transactions[i].as_slice()) {
            Ok(tx) => {
                bundles.push(constraint_bundle(Some(constraint.message.block), hash, tx));
            },
            Err(e) => {
                return Err(BundleError::Transaction(i, e));
            },
        }
        i += 1;
    }
    Ok(bundles)
}

/// Whether the inclusion payloads at the first `n` places, and the transactions in them, can be
/// decoded.
pub open spec fn first_payloads_decodable(payloads: Seq<Option<Vec<u8>>>, n: int) -> bool {
    forall|i: int|
        0 <= i < n ==> {
            &&& (#[trigger] payloads[i]) is Some
            &&& enveloped_transaction(payloads[i]->0@) is Some
        }
}

/// Convert each inclusion payload to an individual bundle for order pipeline. A payload is given
/// by its signed transaction, or by none where it could not be decoded. The bundles are for any
/// block, and carry the hash of their transaction.
pub fn payloads_to_individual_bundles(payloads: &Vec<Option<Vec<u8>>>) -> (result: Result<
    Vec<Bundle>,
    BundleError,
>)
    ensures
        match result {
            Ok(bundles) => {
                &&& first_payloads_decodable(payloads@, payloads@.len() as int)
                &&& bundles@.len() == payloads@.len()
                &&& forall|i: int|
                    0 <= i < bundles@.len() ==> is_constraint_bundle(
                        #[trigger] bundles@[i],
                        None,
                        (enveloped_transaction(payloads@[i]->0@)->0).0,
                        enveloped_transaction(payloads@[i]->0@)->0,
                    )
            },
            Err(BundleError::Payload(i)) => {
                &&& i < payloads@.len()
                &&& first_payloads_decodable(payloads@, i as int)
                &&& payloads@[i as int] is None
            },
            Err(BundleError::Transaction(i, _)) => {
                &&& i < payloads@.len()
                &&& first_payloads_decodable(payloads@, i as int)
                &&& payloads@[i as int] matches Some(signed_tx)
                &&& enveloped_transaction(signed_tx@) is None
            },
        },
{
    let mut bundles: Vec<Bundle> = Vec::new();
    let mut i: usize = 0;
    while i < payloads.len()
        invariant
            i <= payloads@.len(),
            first_payloads_decodable(payloads@, i as int),
            bundles@.len() == i,
            forall|k: int|
                0 <= k < i ==> is_constraint_bundle(
                    #[trigger] bundles@[k],
                    None,
                    (enveloped_transaction(payloads@[k]->0@)->0).0,
                    enveloped_transaction(payloads@[k]->0@)->0,
                ),
        decreases payloads@.len() - i,
    {
        match &payloads[i] {
            Some(signed_tx) => match decode_2718(signed_tx.as_slice()) {
                Ok(tx) => {
                    // Use constraint tx hash as base for bundle hash
                    let hash = tx.hash;
                    bundles.push(constraint_bundle(None, hash, tx));
                },
                Err(e) => {
                    return Err(BundleError::Transaction(i, e));
                },
            },
            None => {
                return Err(BundleError::Payload(i));
            },
        }
        i += 1;
    }
    Ok(bundles)
}

/// A bundle for a constraint transaction holds that transaction alone, for the block that it is for,
/// and lets nothing revert or be dropped.
pub proof fn constraint_bundle_must_succeed(
    bundle: Bundle,
    block: Option<u64>,
    hash: Seq<u8>,
    tx: (Seq<u8>, Seq<u8>),
)
    requires
        is_constraint_bundle(bundle, block, hash, tx),
    ensures
        bundle.version == BundleVersion::V2,
        bundle.block == block,
        bundle.hash@ == hash,
        bundle.txs@.len() == 1,
        bundle.txs@[0].hash@ == tx.0,
        bundle.txs@[0].rlp@ == tx.1,
        bundle.reverting_tx_hashes@.len() == 0,
        bundle.dropping_tx_hashes@.len() == 0,
        bundle.min_timestamp is None,
        bundle.max_timestamp is None,
        bundle.replacement_data is None,
        bundle.signer is None,
        bundle.refund_identity is None,
        bundle.refund is None,
        bundle.external_hash is None,
{
}

/// Transactions can be decoded up to a place where the envelope of each before it can be, and
/// payloads where each also holds a transaction.
pub proof fn decodable_means_each_one(
    encoded: Seq<Seq<u8>>,
    payloads: Seq<Option<Vec<u8>>>,
    n: int,
    i: int,
)
    requires
        0 <= i < n,
    ensures
        first_decodable(encoded, n) ==> enveloped_transaction(encoded[i]) is Some,
        first_decodable(encoded, i) && enveloped_transaction(encoded[i]) is Some ==> first_decodable(
            encoded,
            i + 1,
        ),
        first_decodable(encoded, 0),
        first_payloads_decodable(payloads, n) ==> payloads[i] is Some && enveloped_transaction(
            payloads[i]->0@,
        ) is Some,
        first_payloads_decodable(payloads, i) && payloads[i] is Some && enveloped_transaction(
            payloads[i]->0@,
        ) is Some ==> first_payloads_decodable(payloads, i + 1),
        first_payloads_decodable(payloads, 0),
{
}

} // verus!
