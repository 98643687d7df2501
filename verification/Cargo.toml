[package]
name = "kiro_rs"
version = "0.1.0"
edition = "2021"
publish = false

[dependencies]
anyhow = "1"
axum = { version = "0.8", default-features = false, features = ["json"] }
bytes = "1"
chrono = { version = "=0.4.45", default-features = false, features = ["now"] }
fastrand = "=2.5.0"
futures = "0.3"
parking_lot = "0.12"
reqwest = { version = "=0.12.28", default-features = false }
serde = { version = "1", features = ["derive"] }
serde_json = "1"
tracing = "0.1"
