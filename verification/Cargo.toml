[package]
name = "concordium_rust_sdk"
version = "0.1.0"
edition = "2021"
publish = false

[dependencies]
sha2 = "=0.9.9"
ed25519-dalek = "=1.0.1"
rand = "=0.7.3"
anyhow = "=1.0.104"
thiserror = "=1.0.69"
serde = { version = "=1.0.229", features = ["derive"] }
serde_json = "=1.0.154"
semver = "=1.0.28"
chrono = "=0.4.45"
tonic = { version = "=0.14.6", default-features = false, features = ["transport"] }
