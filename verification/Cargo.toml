[package]
name = "chain_indexer"
version = "0.1.0"
edition = "2021"
publish = false

[dependencies]
uckb-jsonrpc-core = "*"
uckb-jsonrpc-client = "*"
jsonrpc-server-utils = "*"
postgres = "*"
tokio-postgres = "*"
tokio = { version = "*", features = ["full"] }
futures = "*"
log = "*"
env_logger = "*"
anyhow = "*"
thiserror = "*"
clap = { version = "*", features = ["derive"] }
parking_lot = "*"
property = "*"
