[package]
name = "sharelink"
version = "0.1.0"
edition = "2021"
publish = false

[dependencies]
base64 = "=0.21.7"
flate2 = { version = "=1.1.10", default-features = false, features = ["zlib"] }
rmp-serde = "=1.3.1"
serde_json = "=1.0.154"
url = "=2.5.8"
serde = { version = "=1.0.229", features = ["derive"] }
thiserror = "=1.0.69"
lazy_static = "=1.5.1"
reqwest = { version = "=0.11.27", default-features = false, features = ["blocking", "json"] }
