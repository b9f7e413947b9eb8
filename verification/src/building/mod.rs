//! Building a block that honours its constraints, and proving that it does.

pub mod answer_laws;
pub mod block_building_helper;
pub mod built_block_trace;
pub mod constraint_proofs;
pub mod finalization;
pub mod finalization_laws;
pub mod helper_error;
pub mod hex_vec;
pub mod partial_block;
pub mod run_laws;
pub mod setup;
pub mod setup_laws;
pub mod transaction;
pub mod trie;
pub mod trie_nodes;
