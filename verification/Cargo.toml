[package]
name = "rustpanel_core"
version = "0.1.0"
edition = "2021"
publish = false

[dependencies]
data-encoding = "2"
hmac = "0.12"
sha1 = "0.10"
jsonwebtoken = "9"
uuid = { version = "1", features = ["v4"] }
serde = { version = "1", features = ["derive"] }
serde_json = "1"
tokio = { version = "1", features = ["sync", "rt", "time", "fs", "macros"] }
libc = "0.2"
