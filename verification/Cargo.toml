[package]
name = "tif2tiles"
version = "0.1.0"
edition = "2021"
publish = false

[dependencies]
base64 = "0.22"
chrono = "0.4"
hmac = "0.12"
percent-encoding = "2"
rayon = "1"
reqwest = { version = "0.12", default-features = false, features = ["blocking", "rustls-tls"] }
serde = { version = "1", features = ["derive"] }
serde_json = "1"
sha1 = "0.10"
uuid = { version = "1", features = ["v4"] }
walkdir = "2"
