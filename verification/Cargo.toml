[package]
name = "enfinitos_auditor"
version = "0.0.4"
edition = "2021"
publish = false

[dependencies]
base64 = "0.22"
chrono = "0.4"
ed25519-dalek = { version = "2", features = ["rand_core"] }
serde = { version = "1", features = ["derive"] }
serde_json = "1"
sha2 = "0.10"
thiserror = "1"

[dev-dependencies]
rand_core = { version = "0.6", features = ["getrandom"] }
