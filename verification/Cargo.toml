[package]
name = "feature_engine"
version = "0.1.0"
edition = "2021"
publish = false

[dependencies]
arrow = { version = "*", default-features = false }
blake3 = "1"
hex = "0.4"
rustix = { version = "1", features = ["process", "fs"] }
semver = "1"
serde = { version = "1", features = ["derive"] }
serde_json = "1"
thiserror = "2"
time = "0.3"
toml = "*"
