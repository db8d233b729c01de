[package]
name = "kid"
version = "0.1.0"
edition = "2021"
publish = false

[dependencies]
chrono = "=0.4.45"
uuid = { version = "=1.29.0", features = ["v4", "v7"] }
indexmap = "=2.14.2"
sha2 = "=0.10.9"
base64 = "=0.22.1"
rand = "=0.9.5"
url = "=2.5.8"
serde = { version = "=1.0.229", features = ["derive"] }
serde_json = "=1.0.154"
toml = "=0.8.23"
sublime_fuzzy = "0.7"
serde_urlencoded = "0.7"
