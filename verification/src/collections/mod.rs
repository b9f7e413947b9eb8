//! Hash maps and caches of other crates, with what their methods do stated.

pub mod hash_map;
pub mod lru;
pub mod sorting;
