[package]
name = "hapcli"
version = "0.1.0"
edition = "2021"
publish = false

[dependencies]
ab_glyph = "0.2"
chrono = { version = "=0.4.45", default-features = false, features = ["clock"] }
dirs = "=5.0.1"
fs2 = "=0.4.3"
reqwest = { version = "=0.12.28", default-features = false, features = ["blocking", "json", "socks"] }
serde = { version = "=1.0.229", features = ["derive"] }
serde_json = "=1.0.154"
uuid = { version = "=1.29.0", features = ["v4"] }
zeroize = "=1.9.1"
