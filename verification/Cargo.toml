[package]
name = "eventbus"
version = "0.1.0"
edition = "2021"
publish = false

[dependencies]
anyhow = "1"
async-channel = "*"
async-trait = "0.1"
await-tree = "*"
dashmap = "*"
serde = { version = "1", features = ["derive"] }
tokio = { version = "1", features = ["rt", "rt-multi-thread", "sync", "time"] }
toml = "*"
tracing = "0.1"
