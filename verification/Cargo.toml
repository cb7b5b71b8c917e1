[package]
name = "cortex_contract"
version = "0.1.0"
edition = "2021"
publish = false

[dependencies]
prost = "0.13"
toml = "0.8"
serde = { version = "1", features = ["derive"] }
thiserror = "2"
tokio = { version = "1", features = ["rt-multi-thread", "macros", "time", "sync"] }
tokio-stream = "0.1"
futures-util = "0.3"
async-trait = "0.1"
deadpool-redis = "0.18"
