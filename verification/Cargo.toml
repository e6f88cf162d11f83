[package]
name = "bililive"
version = "0.2.0"
edition = "2021"
publish = false

[dependencies]
actix-codec = "=0.5.4"
awc = { version = "=3.11.0", default-features = false }
brotli = "=9.0.0"
flate2 = "=1.1.10"
futures = "=0.3.34"
log = "=0.4.34"
reqwest = { version = "=0.12.28", default-features = false, features = ["cookies"] }
serde = { version = "=1.0.229", features = ["derive"] }
serde_json = "=1.0.154"
tokio = { version = "=1.54.1", features = ["time"] }
url = { version = "=2.5.8", features = ["serde"] }
