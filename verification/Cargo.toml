[package]
name = "sutorio_axum_utils_crypto"
version = "0.1.0"
edition = "2021"
publish = false

[dependencies]
base64ct = { version = "=1.8.3", features = ["alloc"] }
chrono = "=0.4.45"
hmac = "=0.13.0"
sha2 = "=0.11.0"
serde = { version = "=1.0.229", features = ["derive"] }
