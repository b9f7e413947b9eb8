//! How constraints are taken in, and the work that this sets off.

use crate::constraint_input::constraint_sink::{
    CommandView, ConstraintPoolCommand, ConstraintSink,
};
use crate::constraint_input::constraintpool::{
    command_views, store_after_all, subscriptions_run, ConstraintPool,
};
use crate::constraint_input::messages::ConstraintsMessage;
use vstd::prelude::*;

verus! {

/// Default values for constraint input configuration
pub const DEFAULT_SERVE_MAX_CONNECTIONS: u32 = 4096;

/// In milliseconds
pub const DEFAULT_RESULTS_CHANNEL_TIMEOUT: u64 = 50;

pub const CONSTRAINT_INPUT_BUFFER: usize = 10_000;

pub const DEFAULT_CONSTRAINT_SERVER_PORT: u16 = 8547;

/// How many commands are processed in one go
pub const COMMAND_BATCH: usize = 100;

/// Configuration for constraint input via RPC
#[derive(Debug, Clone, Copy, PartialEq, Eq)]
pub struct ConstraintInputConfig {
    pub enabled: bool,
    /// Constraint RPC port
    pub server_port: u16,
    /// Constraint RPC IP address
    pub server_ip: [u8; 4],
    /// Constraint RPC max connections
    pub serve_max_connections: u32,
    /// Timeout when sending constraints to processing channel, in milliseconds
    pub results_channel_timeout: u64,
}

impl ConstraintInputConfig {
    pub fn new(
        enabled: bool,
        server_port: u16,
        server_ip: [u8; 4],
        serve_max_connections: u32,
        results_channel_timeout: u64,
    ) -> (config: Self)
        ensures
            config == (ConstraintInputConfig {
                enabled,
                server_port,
                server_ip,
                serve_max_connections,
                results_channel_timeout,
            }),
    {
        ConstraintInputConfig {
            enabled,
            server_port,
            server_ip,
            serve_max_connections,
            results_channel_timeout,
        }
    }

    /// The room of the channel that submissions go through, where they are taken in at all.
    pub fn submission_buffer(&self) -> (buffer: Option<usize>)
        ensures
            buffer == (if self.enabled {
                Some(CONSTRAINT_INPUT_BUFFER)
            } else {
                None
            }),
    {
        if self.enabled {
            Some(CONSTRAINT_INPUT_BUFFER)
        } else {
            None
        }
    }
}

impl Default for ConstraintInputConfig {
    fn default() -> (config: Self)
        ensures
            config.enabled,
            config.server_port == 8547,
            config.server_ip@ == seq![0u8, 0, 0, 0],
            config.serve_max_connections == 4096,
            config.results_channel_timeout == 50,
    {
        ConstraintInputConfig {
            enabled: true,
            server_port: DEFAULT_CONSTRAINT_SERVER_PORT,
            server_ip: [0, 0, 0, 0],
            serve_max_connections: DEFAULT_SERVE_MAX_CONNECTIONS,
            results_channel_timeout: DEFAULT_RESULTS_CHANNEL_TIMEOUT,
        }
    }
}

/// The command that brings constraints into the pool.
pub fn bridge(message: ConstraintsMessage) -> (command: ConstraintPoolCommand)
    ensures
        command@ == CommandView::Insert(message@),
        command == ConstraintPoolCommand::Insert(message),
{
    ConstraintPoolCommand::Insert(message)
}

/// Takes a batch of commands that was received, none if the work was cancelled first. The work
/// goes on unless it was cancelled or no command can come any more, which an empty batch means.
pub fn take_batch<S: ConstraintSink>(
    pool: &mut ConstraintPool<S>,
    batch: Option<Vec<ConstraintPoolCommand>>,
) -> (goes_on: bool)
    requires
        old(pool).wf(),
    ensures
        final(pool).wf(),
        final(pool).next_id() == old(pool).next_id(),
        match batch {
            Some(commands) => {
                &&& goes_on == (commands@.len() > 0)
                &&& final(pool).store() == store_after_all(
                    old(pool).store(),
                    command_views(commands@),
                )
                &&& subscriptions_run(
                    old(pool).subscriptions(),
                    command_views(commands@),
                    final(pool).subscriptions(),
                )
            },
            None => {
                &&& !goes_on
                &&& final(pool).store() == old(pool).store()
                &&& final(pool).subscriptions() == old(pool).subscriptions()
            },
        },
{
    match batch {
        Some(commands) => {
            if commands.is_empty() {
                return false;
            }
            pool.process_commands(commands);
            true
        },
        None => false,
    }
}

} // verus!
