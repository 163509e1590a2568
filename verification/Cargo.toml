[package]
name = "codex_sdk"
version = "0.1.0"
edition = "2021"
publish = false

[dependencies]
async-stream = "0.3"
futures = "0.3"
log = "0.4"
serde = { version = "1", features = ["derive"] }
serde_json = "1"
tempfile = "3"
thiserror = "1"
tokio = { version = "1", features = ["io-util", "macros", "process", "rt", "rt-multi-thread", "time"] }
tokio-util = "0.7"
