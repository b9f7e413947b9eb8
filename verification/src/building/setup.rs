//! How a block under construction is set up: what is asked of the provider and of the execution
//! layer, and what is made of each answer.

use crate::building::block_building_helper::{BlockBuildingHelperFromProvider, HelperView};
use crate::building::built_block_trace::{new_trace, BuiltBlockId, OrderId, OrderStatistics};
use crate::building::helper_error::{BlockBuildingHelperError, ProviderError};
use crate::building::partial_block::{
    no_space, BlockBuildingContext, BlockSpace, ContextView, PartialBlockView,
};
use crate::primitives::bytes::Address;
use crate::primitives::clock::{Nanos, UtcTime};
use crate::primitives::numbers::U256;
use vstd::prelude::*;

verus! {

/// How far the setup has come.
#[derive(Debug, Clone, Copy)]
pub enum SetupStage {
    /// The reader of historical block hashes is being checked.
    Checking,
    /// The balance of the fee recipient is being read.
    Balancing,
    /// The calls before the block are being made; the balance is known.
    Calling(U256),
    /// The cost of the payout is being estimated; the balance is known.
    Estimating(U256),
}

/// What is to be done next.
#[derive(Debug, Clone, Copy, PartialEq, Eq)]
pub enum SetupAction {
    /// Check that the hash of the last committed block can be read.
    CheckBlockHashes { last_committed_block: u64 },
    /// Read the balance of the fee recipient.
    ReadBalance { account: Address },
    /// Begin a partial block, and make the calls before the block. Its execution is traced where
    /// `traced` holds.
    PreBlockCall { discard_txs: bool, traced: bool },
    /// Estimate the space that a payout to this account takes in an empty block.
    EstimatePayout { account: Address },
}

/// The answer to a `SetupAction`.
#[derive(Debug)]
pub enum SetupEvent {
    BlockHashesHealthy,
    BlockHashesUnhealthy(String),
    /// The balance; none for an account that does not exist
    Balance(Option<U256>),
    BalanceFailed(String),
    PreBlockCalled,
    PreBlockCallFailed,
    PayoutEstimated(BlockSpace),
    PayoutNotEstimated(String),
}

/// A setup under way, waiting for the answer to its last action.
pub struct HelperSetup {
    stage: SetupStage,
    built_block_id: BuiltBlockId,
    building_ctx: BlockBuildingContext,
    builder_name: String,
    discard_txs: bool,
    traced: bool,
    available_orders_statistics: OrderStatistics,
    max_order_execution_duration_warning: Option<Nanos>,
}

/// What a `HelperSetup` holds.
pub struct SetupView {
    pub stage: SetupStage,
    pub built_block_id: BuiltBlockId,
    pub context: ContextView,
    pub builder_name: Seq<char>,
    pub discard_txs: bool,
    pub traced: bool,
    pub available_orders: Seq<OrderId>,
    pub max_order_execution_duration_warning: Option<Nanos>,
}

impl View for HelperSetup {
    type V = SetupView;

    closed spec fn view(&self) -> SetupView {
        SetupView {
            stage: self.stage,
            built_block_id: self.built_block_id,
            context: self.building_ctx@,
            builder_name: self.builder_name@,
            discard_txs: self.discard_txs,
            traced: self.traced,
            available_orders: self.available_orders_statistics.orders@,
            max_order_execution_duration_warning: self.max_order_execution_duration_warning,
        }
    }
}

/// Where the setup stands after an answer.
pub enum SetupStep {
    /// It goes on with this action.
    Perform(HelperSetup, SetupAction),
    /// The block can be built; this space was reserved in it for the payout.
    Created(BlockBuildingHelperFromProvider, BlockSpace),
    Failed(BlockBuildingHelperError),
    /// The answer does not belong to the last action; nothing has changed.
    Unexpected(HelperSetup),
}

/// What a block consists of when it was just set up, at the given time.
pub open spec fn new_helper(
    setup: SetupView,
    balance: int,
    payout_tx_space: BlockSpace,
    now: UtcTime,
) -> HelperView {
    HelperView {
        fee_recipient_balance_start: balance,
        partial_block: PartialBlockView {
            coinbase_profit: 0,
            space_used: no_space(),
            space_reserved: payout_tx_space,
            transactions: Seq::empty(),
        },
        payout_tx_gas: payout_tx_space.gas,
        builder_name: setup.builder_name,
        context: setup.context,
        trace: new_trace(setup.built_block_id, setup.available_orders, now),
        adjustable: false,
        max_order_execution_duration_warning: setup.max_order_execution_duration_warning,
    }
}

/// The balance of an account that may not exist.
pub open spec fn balance_or_zero(balance: Option<U256>) -> int {
    match balance {
        Some(balance) => balance@,
        None => 0,
    }
}

/// Whether a step is the one that an answer leads to.
pub open spec fn is_setup_step(step: SetupStep, s: SetupView, event: SetupEvent) -> bool {
    let account = s.context.suggested_fee_recipient;
    match (s.stage, event) {
        (SetupStage::Checking, SetupEvent::BlockHashesHealthy) => {
            &&& step matches SetupStep::Perform(next, action)
            &&& next@ == (SetupView { stage: SetupStage::Balancing, ..s })
            &&& action == (SetupAction::ReadBalance { account })
        },
        (SetupStage::Checking, SetupEvent::BlockHashesUnhealthy(e)) => {
            step == SetupStep::Failed(BlockBuildingHelperError::HistoricalBlockError(e))
        },
        (SetupStage::Balancing, SetupEvent::Balance(balance)) => {
            &&& step matches SetupStep::Perform(next, action)
            &&& next@.stage matches SetupStage::Calling(known)
            &&& known@ == balance_or_zero(balance)
            &&& next@ == (SetupView { stage: next@.stage, ..s })
            &&& action == (SetupAction::PreBlockCall {
                discard_txs: s.discard_txs,
                traced: s.traced,
            })
        },
        (SetupStage::Balancing, SetupEvent::BalanceFailed(e)) => step == SetupStep::Failed(
            BlockBuildingHelperError::ProviderError(ProviderError::Access(e)),
        ),
        (SetupStage::Calling(balance), SetupEvent::PreBlockCalled) => {
            &&& step matches SetupStep::Perform(next, action)
            &&& next@ == (SetupView { stage: SetupStage::Estimating(balance), ..s })
            &&& action == (SetupAction::EstimatePayout { account })
        },
        (SetupStage::Calling(_), SetupEvent::PreBlockCallFailed) => step == SetupStep::Failed(
            BlockBuildingHelperError::PreBlockCallFailed,
        ),
        (SetupStage::Estimating(balance), SetupEvent::PayoutEstimated(space)) => {
            &&& step matches SetupStep::Created(helper, reserved)
            &&& helper.wf()
            &&& helper@ == new_helper(s, balance@, space, helper@.trace.orders_closed_at)
            &&& reserved == space
        },
        (SetupStage::Estimating(_), SetupEvent::PayoutNotEstimated(e)) => {
            step == SetupStep::Failed(BlockBuildingHelperError::UnableToEstimatePayoutGas(e))
        },
        _ => step matches SetupStep::Unexpected(same) && same@ == s,
    }
}

impl HelperSetup {
    /// Takes the answer to the last action.
    pub fn advance(self, event: SetupEvent) -> (step: SetupStep)
        ensures
            is_setup_step(step, self@, event),
    {
        let account = self.building_ctx.suggested_fee_recipient;
        match (self.stage, event) {
            (SetupStage::Checking, SetupEvent::BlockHashesHealthy) => {
                let mut next = self;
                next.stage = SetupStage::Balancing;
                SetupStep::Perform(next, SetupAction::ReadBalance { account })
            },
            (SetupStage::Checking, SetupEvent::BlockHashesUnhealthy(e)) => SetupStep::Failed(
                BlockBuildingHelperError::HistoricalBlockError(e),
            ),
            (SetupStage::Balancing, SetupEvent::Balance(balance)) => {
                let known = match balance {
                    Some(balance) => balance,
                    None => U256::zero(),
                };
                let mut next = self;
                next.stage = SetupStage::Calling(known);
                let action = SetupAction::PreBlockCall {
                    discard_txs: next.discard_txs,
                    traced: next.traced,
                };
                SetupStep::Perform(next, action)
            },
            (SetupStage::Balancing, SetupEvent::BalanceFailed(e)) => SetupStep::Failed(
                BlockBuildingHelperError::ProviderError(ProviderError::Access(e)),
            ),
            (SetupStage::Calling(balance), SetupEvent::PreBlockCalled) => {
                let mut next = self;
                next.stage = SetupStage::Estimating(balance);
                SetupStep::Perform(next, SetupAction::EstimatePayout { account })
            },
            (SetupStage::Calling(_), SetupEvent::PreBlockCallFailed) => SetupStep::Failed(
                BlockBuildingHelperError::PreBlockCallFailed,
            ),
            (SetupStage::Estimating(balance), SetupEvent::PayoutEstimated(space)) => {
                let helper = BlockBuildingHelperFromProvider::assemble(
                    self.built_block_id,
                    balance,
                    space,
                    self.builder_name,
                    self.building_ctx,
                    self.available_orders_statistics,
                    self.max_order_execution_duration_warning,
                );
                SetupStep::Created(helper, space)
            },
            (SetupStage::Estimating(_), SetupEvent::PayoutNotEstimated(e)) => SetupStep::Failed(
                BlockBuildingHelperError::UnableToEstimatePayoutGas(e),
            ),
            _ => SetupStep::Unexpected(self),
        }
    }
}

/// Whether a step is the first one of a setup with these parameters.
pub open spec fn is_first_step(step: (HelperSetup, SetupAction), s: SetupView) -> bool {
    &&& step.0@ == (SetupView { stage: SetupStage::Checking, ..s })
    &&& step.1 == (SetupAction::CheckBlockHashes {
        last_committed_block: (s.context.block - 1) as u64,
    })
}

impl BlockBuildingHelperFromProvider {
    /// Sets a block up whose execution is not traced, see `new_with_execution_tracer`.
    pub fn new(
        built_block_id: BuiltBlockId,
        building_ctx: BlockBuildingContext,
        builder_name: String,
        discard_txs: bool,
        available_orders_statistics: OrderStatistics,
        max_order_execution_duration_warning: Option<Nanos>,
    ) -> (step: (HelperSetup, SetupAction))
        requires
            building_ctx.block >= 1,
        ensures
            is_first_step(
                step,
                (SetupView {
                    stage: SetupStage::Checking,
                    built_block_id,
                    context: building_ctx@,
                    builder_name: builder_name@,
                    discard_txs,
                    traced: false,
                    available_orders: available_orders_statistics.orders@,
                    max_order_execution_duration_warning,
                }),
            ),
    {
        setup(
            built_block_id,
            building_ctx,
            builder_name,
            discard_txs,
            available_orders_statistics,
            false,
            max_order_execution_duration_warning,
        )
    }

    /// Performs initialization:
    /// - Query fee_recipient_balance_start.
    /// - pre_block_call.
    /// - Estimate payout tx cost.
    pub fn new_with_execution_tracer(
        built_block_id: BuiltBlockId,
        building_ctx: BlockBuildingContext,
        builder_name: String,
        discard_txs: bool,
        available_orders_statistics: OrderStatistics,
        max_order_execution_duration_warning: Option<Nanos>,
    ) -> (step: (HelperSetup, SetupAction))
        requires
            building_ctx.block >= 1,
        ensures
            is_first_step(
                step,
                (SetupView {
                    stage: SetupStage::Checking,
                    built_block_id,
                    context: building_ctx@,
                    builder_name: builder_name@,
                    discard_txs,
                    traced: true,
                    available_orders: available_orders_statistics.orders@,
                    max_order_execution_duration_warning,
                }),
            ),
    {
        setup(
            built_block_id,
            building_ctx,
            builder_name,
            discard_txs,
            available_orders_statistics,
            true,
            max_order_execution_duration_warning,
        )
    }
}

fn setup(
    built_block_id: BuiltBlockId,
    building_ctx: BlockBuildingContext,
    builder_name: String,
    discard_txs: bool,
    available_orders_statistics: OrderStatistics,
    traced: bool,
    max_order_execution_duration_warning: Option<Nanos>,
) -> (step: (HelperSetup, SetupAction))
    requires
        building_ctx.block >= 1,
    ensures
        is_first_step(
            step,
            (SetupView {
                stage: SetupStage::Checking,
                built_block_id,
                context: building_ctx@,
                builder_name: builder_name@,
                discard_txs,
                traced,
                available_orders: available_orders_statistics.orders@,
                max_order_execution_duration_warning,
            }),
        ),
{
    let last_committed_block: u64 = building_ctx.block - 1;
    (
        HelperSetup {
            stage: SetupStage::Checking,
            built_block_id,
            building_ctx,
            builder_name,
            discard_txs,
            traced,
            available_orders_statistics,
            max_order_execution_duration_warning,
        },
        SetupAction::CheckBlockHashes { last_committed_block },
    )
}

} // verus!
