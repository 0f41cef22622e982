[package]
name = "user_auth"
version = "0.1.0"
edition = "2021"
publish = false

[dependencies]
hmac = "=0.12.1"
sha2 = "=0.10.9"
rustc-serialize = "=0.3.25"
mongodb = { version = "=2.8.2", default-features = false, features = ["sync"] }
bson = "=2.15.0"
serde = { version = "=1.0.229", features = ["derive"] }
serde_json = "=1.0.151"
