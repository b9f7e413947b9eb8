//! Signed transactions, as far as proofs read them.

use crate::primitives::bytes::B256;
use alloy_eips::eip2718::Decodable2718;
use vstd::prelude::*;

verus! {

#[verifier::external_type_specification]
#[verifier::external_body]
pub struct ExEip2718Error(alloy_eips::eip2718::Eip2718Error);

/// A signed transaction.
#[derive(Debug, Clone)]
pub struct TransactionSigned {
    /// Transaction hash
    pub hash: B256,
    /// RLP encoding of the signed transaction
    pub rlp: Vec<u8>,
}

impl TransactionSigned {
    /// An RLP encoding is never empty.
    pub open spec fn wf(&self) -> bool {
        self.rlp@.len() > 0
    }
}

/// Hash and RLP encoding of the transaction that an EIP-2718 envelope starts with, if it starts
/// with one.
pub uninterp spec fn enveloped_transaction(bytes: Seq<u8>) -> Option<(Seq<u8>, Seq<u8>)>;

/// `Decodable2718::decode_2718` of an `EthereumTxEnvelope`, with the hash of the transaction and
/// its `alloy_rlp::encode` read off. The encoding of a transaction is not empty.
#[verifier::external_body]
pub(crate) fn decode_2718(bytes: &[u8]) -> (result: Result<
    TransactionSigned,
    alloy_eips::eip2718::Eip2718Error,
>)
    ensures
        enveloped_transaction(bytes@) == (match result {
            Ok(tx) => Some((tx.hash@, tx.rlp@)),
            Err(_) => None,
        }),
        result matches Ok(tx) ==> tx.wf(),
{
    let mut rest: &[u8] = bytes;
    let tx = alloy_consensus::EthereumTxEnvelope::<alloy_consensus::TxEip4844>::decode_2718(
        &mut rest,
    )?;
    Ok(TransactionSigned { hash: tx.tx_hash().0, rlp: alloy_rlp::encode(&tx) })
}

} // verus!
