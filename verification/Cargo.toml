[package]
name = "clapshot_core"
version = "0.1.0"
edition = "2021"
publish = false

[dependencies]
sha2 = "0.10"
hex = "0.4"
urlencoding = "2"
uuid = { version = "1", features = ["v4"] }
semver = "1"
serde = { version = "1", features = ["derive"] }
serde_json = "1"
chrono = "0.4"
crossbeam-channel = "0.5"
anyhow = "1"
