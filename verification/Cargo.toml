[package]
name = "zutil"
version = "0.1.0"
edition = "2021"
publish = false

[dependencies]
tokio = { version = "*", features = ["rt", "sync"] }
parking_lot = "*"
log = "*"
serde = "*"
tracing = "*"
tracing-subscriber = { version = "*", features = ["env-filter"] }
