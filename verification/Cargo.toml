[package]
name = "remote_logger"
version = "0.1.0"
edition = "2021"
publish = false

[dependencies]
log = { version = "0.4", features = ["kv_serde", "std"] }
serde_json = "1"
tokio = { version = "1", features = ["rt", "macros", "sync", "time"] }
async-trait = "0.1"
crossbeam-channel = "0.5"
chrono = "0.4"
