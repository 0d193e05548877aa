[package]
name = "kotone"
version = "0.1.0"
edition = "2021"
publish = false

[dependencies]
dirs = "=7.0.0"
serde = { version = "=1.0.229", features = ["derive"] }
serde_json = "=1.0.154"
zip = { version = "=9.2.2", default-features = false, features = ["deflate"] }
tokio = { version = "1", features = ["rt", "time", "sync", "macros"] }

[dev-dependencies]
tempfile = "=3.27.0"
