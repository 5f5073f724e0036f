[package]
name = "stc_scheduler"
version = "0.1.0"
edition = "2021"
publish = false

[dependencies]
dashmap = "6"
parking_lot = "0.12"
serde = { version = "1", features = ["derive"] }
serde_json = "1"
tracing = "0.1"
uuid = { version = "1", features = ["v4"] }
