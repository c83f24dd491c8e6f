[package]
name = "agentic_optio_rs"
version = "0.1.0"
edition = "2021"
publish = false

[dependencies]
serde = { version = "=1.0.229", features = ["derive"] }
serde_json = { version = "=1.0.151", features = ["float_roundtrip"] }
reqwest = { version = "=0.13.5", default-features = false, features = ["json", "stream"] }
async-trait = "=0.1.92"
futures = "=0.3.34"
bytes = "=1.12.1"
thiserror = "=2.0.21"
