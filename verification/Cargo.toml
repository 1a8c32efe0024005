[package]
name = "zeroclaw_tools"
version = "0.1.0"
edition = "2021"
publish = false

[dependencies]
anyhow = "1"
async-trait = "0.1"
chrono = { version = "0.4", default-features = false, features = ["std"] }
parking_lot = "0.12"
serde_json = "1"
thiserror = "2"
tokio = { version = "1", features = ["fs", "io-util", "process", "rt", "sync", "time"] }
