[package]
name = "fundlens"
version = "0.1.0"
edition = "2021"
publish = false

[dependencies]
base64 = "=0.22.1"
chrono = "=0.4.45"
encoding_rs = "=0.8.44"
once_cell = "=1.21.4"
reqwest = { version = "=0.12.28", default-features = false, features = ["blocking", "charset", "rustls-tls"] }
rusqlite = { version = "=0.31.0", features = ["bundled", "backup"] }
serde = { version = "=1.0.229", features = ["derive"] }
serde_json = "=1.0.154"
