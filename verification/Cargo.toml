[package]
name = "jsonrpc_runtime"
version = "0.1.0"
edition = "2021"
publish = false

[dependencies]
anyhow = "1"
futures-channel = "0.3"
futures-util = "0.3"
log = "0.4"
rustc-hash = "1.1"
serde = { version = "1", features = ["derive"] }
serde_json = { version = "1", features = ["raw_value"] }
thiserror = "1"
tokio = { version = "1", features = ["rt", "time"] }
