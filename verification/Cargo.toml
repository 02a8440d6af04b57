[package]
name = "miner_core"
version = "0.1.0"
edition = "2021"
publish = false

[dependencies]
serde_json = "1"
tokio = { version = "1", default-features = false, features = ["sync"] }
async-trait = "0.1"
