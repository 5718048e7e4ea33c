[package]
name = "turnover"
version = "0.1.0"
edition = "2021"
publish = false

[dependencies]
csv = "1"
uuid = { version = "1", features = ["v4"] }
tokio = { version = "1", features = ["fs", "process", "rt", "rt-multi-thread", "macros", "io-util"] }
anyhow = "1"
tempfile = "3"
futures = "0.3"
serde = { version = "1", features = ["derive"] }
