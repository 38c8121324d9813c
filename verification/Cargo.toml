[package]
name = "helper_binaries"
version = "0.1.0"
edition = "2021"
publish = false

[dependencies]
fs_extra = "1"
hex = "0.4"
include_dir = "0.7"
indexmap = { version = "2", features = ["serde"] }
reqwest = { version = "0.12", default-features = false }
serde = { version = "1", features = ["derive"] }
serde_json = "1"
sha2 = "0.10"
tokio = { version = "1", features = ["fs", "io-util", "rt", "time"] }
tracing = "0.1"
