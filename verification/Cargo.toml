[package]
name = "lqos_bakery"
version = "0.1.0"
edition = "2021"
publish = false

[dependencies]
anyhow = "1"
crossbeam-channel = "0.5"
parking_lot = "0.12"
serde_json = "1"
tracing = "0.1"
