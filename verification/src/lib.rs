//! Preconfirmation constraints for an Ethereum block builder: taking them in, pooling them
//! by slot, working them into a block, and proving that the block holds them.

pub mod block_output;
pub mod building;
pub mod collections;
pub mod constraint_input;
pub mod mev_boost;
pub mod primitives;
