[package]
name = "consumer_group"
version = "0.1.0"
edition = "2021"
publish = false

[dependencies]
anyhow = "1"
etcd-client = "0.12"
futures = "0.3"
scylla = "0.13"
serde = { version = "1", features = ["derive"] }
serde_with = "3"
thiserror = "1"
tokio = { version = "1", features = ["rt-multi-thread", "macros", "sync", "time"] }
tonic = "0.10"
tracing = "0.1"
