//! What is handed to relays.

pub mod block_merging;
pub mod relay_submission;
pub mod submission;
