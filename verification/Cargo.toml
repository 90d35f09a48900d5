[package]
name = "account_core"
version = "0.1.0"
edition = "2021"
publish = false

[dependencies]
askama = "=0.16.1"
base64 = "=0.23.1"
bcrypt = "=0.19.3"
chrono = "=0.4.45"
hmac = "=0.13.0"
rand = "=0.10.3"
serde = { version = "=1.0.229", features = ["derive"] }
serde_url_params = "=0.2.1"
sha3 = "=0.12.0"
tokio = { version = "=1.53.2", features = ["full"] }
warp = { version = "=0.4.3", features = ["server"] }
