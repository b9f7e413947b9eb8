//! How constraint proofs are served.

use vstd::prelude::*;

verus! {

/// Name of the method that serves proofs
pub const GET_CONSTRAINT_PROOFS: &'static str = "getConstraintProofs";

/// Configuration for the constraint proof RPC server
#[derive(Debug, Clone, Copy, PartialEq, Eq)]
pub struct ConstraintProofRpcConfig {
    pub server_ip: [u8; 4],
    pub server_port: u16,
    pub max_connections: u32,
}

impl Default for ConstraintProofRpcConfig {
    fn default() -> (config: Self)
        ensures
            config.server_ip@ == seq![0u8, 0, 0, 0],
            config.server_port == 9548,
            config.max_connections == 100,
    {
        ConstraintProofRpcConfig {
            server_ip: [0, 0, 0, 0],
            server_port: 9548,
            max_connections: 100,
        }
    }
}

} // verus!
