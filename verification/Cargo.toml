[package]
name = "containers"
version = "0.1.0"
edition = "2021"
publish = false

[dependencies]
anyhow = "1"
axum = { version = "0.8", features = ["ws"] }
futures-util = "0.3"
regex = "1"
serde = { version = "1", features = ["derive"] }
serde_json = "1"
tokio = { version = "1", features = ["io-util", "macros", "process", "rt-multi-thread", "sync"] }
tokio-util = { version = "0.7", features = ["codec", "io"] }
tracing = "0.1"
ts-rs = { version = "*", features = ["uuid-impl"] }
uuid = { version = "1", features = ["serde", "v4"] }
