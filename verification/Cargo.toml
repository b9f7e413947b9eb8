[package]
name = "rbuilder_constraints"
version = "0.1.0"
edition = "2021"
publish = false

[dependencies]
ahash = "=0.8.12"
alloy-consensus = "=1.8.3"
alloy-eips = "=1.8.3"
alloy-primitives = "=1.5.7"
alloy-rlp = "=0.3.17"
alloy-rpc-types-beacon = "=1.8.3"
eth_trie = "=0.4.0"
ethereum-types = "0.14"
eyre = "0.6"
hex = "=0.4.3"
jsonrpsee = { version = "0.26", features = ["server"] }
lru = "=0.12.5"
parking_lot = "0.12"
serde = { version = "1", features = ["derive"] }
serde_json = "1"
ethereum_ssz = "0.9"
ethereum_ssz_derive = "0.9"
thiserror = "1"
time = "=0.3.55"
tokio = { version = "=1.54.1", features = ["sync", "rt", "rt-multi-thread", "macros", "time"] }
tokio-util = "0.7"
tracing = "0.1"
url = "=2.5.8"
uuid = { version = "=1.29.0", features = ["v4"] }
