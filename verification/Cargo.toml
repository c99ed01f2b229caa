[package]
name = "tsubasa"
version = "0.1.0"
edition = "2021"
publish = false

[dependencies]
urlencoding = "=2.1.3"
serde = { version = "=1.0.229", features = ["derive"] }
serde_json = "=1.0.154"
tokio = { version = "=1.54.1", features = ["time", "rt", "macros", "sync"] }
thiserror = "=2.0.21"
dirs = "*"
chrono = { version = "*", default-features = false, features = ["clock", "std"] }
uuid = { version = "*", features = ["v4"] }
