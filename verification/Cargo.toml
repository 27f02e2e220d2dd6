[package]
name = "picnexus_core"
version = "0.1.0"
edition = "2021"
publish = false

[dependencies]
hmac = "0.12"
sha2 = "0.10"
sha1 = "0.10"
md-5 = "0.10"
hex = "0.4"
base64 = "0.22"
chrono = "0.4"
urlencoding = "2"
reqwest = { version = "0.12", default-features = false }
serde = { version = "1", features = ["derive"] }
serde_json = "1"
tokio = { version = "1", features = ["rt-multi-thread", "macros", "time", "fs"] }
