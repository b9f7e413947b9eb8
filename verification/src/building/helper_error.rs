//! What can go wrong while a block is built.

use crate::building::constraint_proofs::ConstraintProofError;
use crate::primitives::bytes::B256;
use vstd::prelude::*;

verus! {

/// Why block data could not be had.
#[derive(Debug)]
pub enum ProviderError {
    /// The provider failed.
    Access(String),
    /// Failed to decode constraint payload
    UndecodablePayload(String),
    /// Failed to decode constraint transaction
    UndecodableTransaction(String),
    /// A constraint transaction, which must be in the block, cannot be executed in it.
    ConstraintNotIncluded(B256),
    /// Critical error executing constraint transaction
    CriticalExecution(String),
    /// Failed to prove transaction inclusion
    Unproved(ConstraintProofError),
}

/// Why the payout transaction could not be inserted.
#[derive(Debug)]
pub enum InsertPayoutTxErr {
    /// The profit does not pay for the payout.
    ProfitTooLow,
    /// Anything else.
    Other(String),
}

/// Why a block could not be sealed.
#[derive(Debug)]
pub enum FinalizeError {
    /// The view of the database is no longer consistent: the head has moved.
    ConsistentDbView(String),
    /// Anything else.
    Other(String),
}

impl FinalizeError {
    /// Whether the head that the block builds on has moved.
    pub fn is_consistent_db_view_err(&self) -> (is: bool)
        ensures
            is == (self is ConsistentDbView),
    {
        match self {
            FinalizeError::ConsistentDbView(_) => true,
            FinalizeError::Other(_) => false,
        }
    }
}

#[derive(Debug)]
pub enum BlockBuildingHelperError {
    /// Error accessing block data
    ProviderError(ProviderError),
    /// Unable estimate payout gas
    UnableToEstimatePayoutGas(String),
    /// pre_block_call failed
    PreBlockCallFailed,
    /// InsertPayoutTxErr while finishing block
    InsertPayoutTxErr(InsertPayoutTxErr),
    /// Bundle consistency check failed
    BundleConsistencyCheckFailed(String),
    /// Error finalizing block
    FinalizeError(FinalizeError),
    /// Provider historical block hashes error
    HistoricalBlockError(String),
    /// Block is not finalized correctly
    BlockFinalizedIncorrectly,
}

impl BlockBuildingHelperError {
    /// Whether an error is more than what normal operations of the builder bring.
    pub open spec fn critical(&self) -> bool {
        match self {
            BlockBuildingHelperError::FinalizeError(FinalizeError::ConsistentDbView(_)) => false,
            BlockBuildingHelperError::InsertPayoutTxErr(InsertPayoutTxErr::ProfitTooLow) => false,
            _ => true,
        }
    }

    /// Non-critical errors can happen during normal operations of the builder
    pub fn is_critical(&self) -> (critical: bool)
        ensures
            critical == self.critical(),
    {
        match self {
            BlockBuildingHelperError::FinalizeError(finalize) => !finalize.is_consistent_db_view_err(),
            BlockBuildingHelperError::InsertPayoutTxErr(InsertPayoutTxErr::ProfitTooLow) => false,
            _ => true,
        }
    }
}

/// Two errors come with normal operations: a head that has moved, and a profit that is too low.
/// Every other one is critical.
pub proof fn two_errors_are_not_critical(error: BlockBuildingHelperError)
    ensures
        !error.critical() <==> (error is FinalizeError && error->FinalizeError_0 is ConsistentDbView)
            || (error is InsertPayoutTxErr && error->InsertPayoutTxErr_0 is ProfitTooLow),
{
}

} // verus!
