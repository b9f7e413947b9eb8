//! What each answer means for the setup of a block, told by what the answer brings.

use crate::building::helper_error::{BlockBuildingHelperError, ProviderError};
use crate::building::partial_block::BlockSpace;
use crate::building::setup::{
    is_first_step, is_setup_step, HelperSetup, SetupAction, SetupEvent, SetupStage, SetupStep,
    SetupView,
};
use crate::primitives::numbers::U256;
use vstd::prelude::*;

verus! {

/// Whether two setups are for the same block, whatever their stages are.
pub open spec fn same_block(a: SetupView, b: SetupView) -> bool {
    &&& a.built_block_id == b.built_block_id
    &&& a.context == b.context
    &&& a.builder_name == b.builder_name
    &&& a.discard_txs == b.discard_txs
    &&& a.traced == b.traced
    &&& a.available_orders == b.available_orders
    &&& a.max_order_execution_duration_warning == b.max_order_execution_duration_warning
}

/// A setup begins with a check of the block before the one that is built.
pub proof fn setup_begins_at_the_parent(step: (HelperSetup, SetupAction), s: SetupView)
    requires
        s.context.block >= 1,
        is_first_step(step, s),
    ensures
        same_block(step.0@, s),
        step.0@.stage is Checking,
        step.1 matches SetupAction::CheckBlockHashes { last_committed_block }
            && last_committed_block + 1 == s.context.block,
{
}

/// The steps of a setup follow one another: the hashes are checked, the balance of the fee
/// recipient is read, the calls before the block are made as they were asked for, and the payout to
/// the fee recipient is estimated. The balance that was read is kept; an account that does not
/// exist has none.
pub proof fn setup_goes_on(step: SetupStep, s: SetupView, event: SetupEvent)
    requires
        is_setup_step(step, s, event),
    ensures
        s.stage is Checking && event is BlockHashesHealthy ==> (step matches SetupStep::Perform(
            next,
            action,
        ) && same_block(next@, s) && next@.stage is Balancing && action
            == (SetupAction::ReadBalance { account: s.context.suggested_fee_recipient })),
        s.stage is Balancing ==> (event matches SetupEvent::Balance(balance) ==> (
        step matches SetupStep::Perform(next, action) && {
            &&& same_block(next@, s)
            &&& next@.stage matches SetupStage::Calling(kept)
            &&& match balance {
                Some(balance) => kept@ == balance@,
                None => kept@ == 0,
            }
            &&& action == (SetupAction::PreBlockCall {
                discard_txs: s.discard_txs,
                traced: s.traced,
            })
        })),
        s.stage matches SetupStage::Calling(balance) ==> (event is PreBlockCalled ==> (
        step matches SetupStep::Perform(next, action) && {
            &&& same_block(next@, s)
            &&& next@.stage == SetupStage::Estimating(balance)
            &&& action == (SetupAction::EstimatePayout {
                account: s.context.suggested_fee_recipient,
            })
        })),
{
}

/// A block that was set up is empty: it has no transactions and no profit, and used no room; the
/// room that the payout was estimated to take is reserved in it, and its gas is that of the payout.
/// Its record begins with nothing but the block's number, the orders that are available and the
/// time, and it starts from the balance that was read.
pub proof fn new_block_is_empty(
    step: SetupStep,
    s: SetupView,
    balance: U256,
    space: BlockSpace,
)
    requires
        s.stage == SetupStage::Estimating(balance),
        is_setup_step(step, s, SetupEvent::PayoutEstimated(space)),
    ensures
        step matches SetupStep::Created(helper, reserved) && {
            let h = helper@;
            &&& reserved == space
            &&& h.partial_block.transactions.len() == 0
            &&& h.partial_block.coinbase_profit == 0
            &&& h.partial_block.space_used.gas == 0
            &&& h.partial_block.space_used.rlp_length == 0
            &&& h.partial_block.space_used.blob_gas == 0
            &&& h.partial_block.space_reserved == space
            &&& h.payout_tx_gas == space.gas
            &&& h.fee_recipient_balance_start == balance@
            &&& h.builder_name == s.builder_name
            &&& h.context == s.context
            &&& !h.adjustable
            &&& h.max_order_execution_duration_warning == s.max_order_execution_duration_warning
            &&& h.trace.build_block_id == s.built_block_id
            &&& h.trace.available_orders == s.available_orders
            &&& h.trace.considered_orders.len() == 0
            &&& h.trace.failed_orders.len() == 0
            &&& h.trace.included_orders.len() == 0
            &&& h.trace.appended_constraint_txs.len() == 0
            &&& h.trace.constraint_proofs.proofs.len() == 0
            &&& h.trace.orders_closed_at == h.trace.orders_sealed_at
            &&& h.trace.coinbase_reward == 0
            &&& h.trace.bid_value == 0
            &&& h.trace.true_bid_value == 0
            &&& h.trace.subsidy == 0
            &&& h.trace.mev_blocker_price == 0
            &&& h.trace.seen_competition_bid is None
            &&& h.trace.fill_time == 0
            &&& h.trace.finalize_time == 0
            &&& h.trace.finalize_adjust_time == 0
            &&& h.trace.root_hash_time == 0
        },
{
}

/// A setup fails with the error that tells which of its steps failed, and an answer that does not
/// belong to the last action changes nothing.
pub proof fn setup_fails_by_its_step(step: SetupStep, s: SetupView, event: SetupEvent)
    requires
        is_setup_step(step, s, event),
    ensures
        match event {
            SetupEvent::BlockHashesUnhealthy(e) if s.stage is Checking => step
                == SetupStep::Failed(BlockBuildingHelperError::HistoricalBlockError(e)),
            SetupEvent::BalanceFailed(e) if s.stage is Balancing => step == SetupStep::Failed(
                BlockBuildingHelperError::ProviderError(ProviderError::Access(e)),
            ),
            SetupEvent::PreBlockCallFailed if s.stage is Calling => step == SetupStep::Failed(
                BlockBuildingHelperError::PreBlockCallFailed,
            ),
            SetupEvent::PayoutNotEstimated(e) if s.stage is Estimating => step
                == SetupStep::Failed(BlockBuildingHelperError::UnableToEstimatePayoutGas(e)),
            _ => !(step is Failed),
        },
        step matches SetupStep::Unexpected(same) ==> same@ == s,
        step is Unexpected <==> match event {
            SetupEvent::BlockHashesHealthy => !(s.stage is Checking),
            SetupEvent::BlockHashesUnhealthy(_) => !(s.stage is Checking),
            SetupEvent::Balance(_) => !(s.stage is Balancing),
            SetupEvent::BalanceFailed(_) => !(s.stage is Balancing),
            SetupEvent::PreBlockCalled => !(s.stage is Calling),
            SetupEvent::PreBlockCallFailed => !(s.stage is Calling),
            SetupEvent::PayoutEstimated(_) => !(s.stage is Estimating),
            SetupEvent::PayoutNotEstimated(_) => !(s.stage is Estimating),
        },
{
}

} // verus!
