//! What happens to a block once it is built: its constraint proofs are generated, kept and served.

pub mod constraint_proof_observer;
pub mod constraint_proof_rpc;
pub mod constraint_proof_storage;
pub mod constraint_prover;
