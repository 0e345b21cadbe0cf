[package]
name = "opaque_framework"
version = "0.1.0"
edition = "2021"
publish = false

[dependencies]
anyhow = "1"
curve25519-dalek = "4"
hkdf = "0.13"
hmac = "0.13"
jsonwebtoken = { version = "10", default-features = false, features = ["rust_crypto"] }
rand = "0.10"
serde = { version = "1", features = ["derive"] }
serde_json = { version = "1", features = ["raw_value"] }
sha2 = "0.11"
