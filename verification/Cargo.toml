[package]
name = "chain_indexer"
version = "0.1.0"
edition = "2021"
publish = false

[dependencies]
bloomfilter = "1"
prost = "*"
futures = "*"
thiserror = "*"
tokio = { version = "*", default-features = false, features = ["sync"] }
tokio-stream = "*"
tonic = "*"
pin-project = "*"
tracing = "*"
