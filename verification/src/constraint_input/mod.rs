//! Fetches new constraints from a constraint server and manages a constraint pool.

pub mod bundles;
pub mod config;
pub mod constraint_sink;
pub mod constraintpool;
pub mod constraints_poller;
pub mod messages;
pub mod poller_laws;
pub mod pool_laws;
pub mod rpc_server;
pub mod server_url;
