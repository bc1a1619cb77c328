[package]
name = "room_registry"
version = "0.1.0"
edition = "2021"
publish = false

[dependencies]
mediasoup = "*"
tokio = { version = "*", features = ["sync", "rt-multi-thread", "macros"] }
