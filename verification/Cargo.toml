[package]
name = "dfim"
version = "0.1.0"
edition = "2021"
publish = false

[dependencies]
sha2 = "=0.11.1"
hmac = "=0.13.0"
hkdf = "=0.13.0"
p256 = { version = "=0.14.0", features = ["ecdsa"] }
subtle = "=2.6.1"
base64 = "=0.23.1"
serde = { version = "=1.0.229", features = ["derive"] }
serde_json = "=1.0.154"
clap = { version = "=4.6.7", features = ["derive"] }
libc = "=0.2.191"
chrono = { version = "0.4", default-features = false, features = ["alloc"] }
