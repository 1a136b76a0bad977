[package]
name = "nemo-relay-memory"
version = "0.1.0"
edition = "2021"
publish = false

[dependencies]
async-trait = "0.1"
chrono = { version = "0.4", features = ["serde"] }
napi = "2"
napi-derive = "2"
pyo3 = { version = "0.23", features = ["abi3-py39", "extension-module"] }
schemars = "0.8"
serde = { version = "1", features = ["derive"] }
serde_json = "1"
sha2 = "0.10"
tokio = { version = "1", features = ["macros", "rt", "sync", "time"] }
