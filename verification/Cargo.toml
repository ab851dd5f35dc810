[package]
name = "fleetgate"
version = "0.1.0"
edition = "2021"
publish = false

[dependencies]
chrono = "=0.4.45"
sha1 = "=0.11.0"
rust-crypto = "=0.2.36"

[dev-dependencies]
base64 = "=0.23.1"
hmac = "=0.13.0"
sha2 = "=0.11.0"
