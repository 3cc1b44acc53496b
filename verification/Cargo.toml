[package]
name = "nusa"
version = "0.1.0"
edition = "2021"
publish = false

[dependencies]
arc-swap = "1"
anyhow = "1"
clap = { version = "4", features = ["derive"] }
figment = { version = "0.10", features = ["toml", "env"] }
serde = { version = "1", features = ["derive"] }
serde_json = "1"
toml = "0.8"
notify = "6"
tokio = { version = "1", features = ["full"] }
tracing = "0.1"
uuid = { version = "1", features = ["v4"] }
parking_lot = "0.12"
thiserror = "1"
async-trait = "0.1"
reqwest = { version = "0.12", default-features = false }
rusqlite = { version = "0.31", features = ["bundled"] }
