[package]
name = "temp_store"
version = "0.1.0"
edition = "2021"
publish = false

[dependencies]
bcs = "0.1.6"
move-core-types = "0.0.3"
serde = { version = "1", features = ["derive"] }
serde_with = "3"
tracing = "0.1"
