//! Plain values that the rest of the library is written over.

pub mod bytes;
pub mod clock;
pub mod constraints;
pub mod decimal;
pub mod numbers;
pub mod rlp;
