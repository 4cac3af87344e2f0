[package]
name = "segmented_encoder"
version = "0.1.0"
edition = "2021"
publish = false

[dependencies]
uuid = { version = "=1.29.0", features = ["v4"] }
shell-words = "=1.1.1"
mime_guess = "=2.0.5"
mime = "=0.3.17"
axum = "=0.7.9"
tokio = { version = "=1.54.1", features = ["rt-multi-thread", "macros", "net", "sync", "process", "io-util", "time"] }
serde = { version = "=1.0.229", features = ["derive"] }
serde_json = "=1.0.154"
reqwest = { version = "=0.12.28", default-features = false, features = ["stream"] }
tokio-util = { version = "=0.7.20", features = ["io"] }
axum-range = "0.4"
axum-extra = { version = "0.9", features = ["typed-header"] }
tower-http = { version = "0.5", features = ["cors"] }
