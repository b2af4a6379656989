[package]
name = "scsl_core"
version = "0.1.0"
edition = "2021"
publish = false

[dependencies]
regex = "=1.13.1"
sha2 = "=0.10.9"
serde = { version = "=1.0.229", features = ["derive"] }
serde_json = "=1.0.154"
rusqlite = { version = "=0.32.1", features = ["bundled"] }
chrono = "=0.4.45"
flate2 = "1"
fastnbt = "2"
zip = { version = "2", default-features = false, features = ["deflate"] }
