[package]
name = "cache_builder"
version = "0.1.0"
edition = "2021"
publish = false

[dependencies]
alloy-json-abi = "*"
arrow = { version = "*", default-features = false }
bincode = "1"
blake3 = "1"
clap = { version = "4", features = ["derive"] }
colored = "2"
crossbeam-channel = "0.5"
eyre = "0.6"
hex = "0.4"
indexmap = { version = "2", features = ["serde"] }
indicatif = "0.17"
lmdb = "0.8"
num_cpus = "1"
parquet = { version = "*", default-features = false, features = ["arrow"] }
rayon = "1"
serde = { version = "1", features = ["derive"] }
tokio = { version = "1", features = ["rt-multi-thread", "time"] }
tracing = "0.1"
tracing-subscriber = { version = "0.3", features = ["env-filter"] }
