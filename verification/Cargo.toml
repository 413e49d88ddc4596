[package]
name = "nexus_wasm_bridge"
version = "1.0.0"
edition = "2021"
publish = false

[dependencies]
sha2 = "0.10"
uuid = { version = "1", features = ["v4"] }
tokio = { version = "1", features = ["rt", "sync", "time", "macros"] }
parking_lot = "0.12"
