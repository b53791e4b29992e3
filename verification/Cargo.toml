[package]
name = "screen_ai_reader"
version = "0.1.0"
edition = "2021"
publish = false

[dependencies]
serde_json = "*"
base64 = "*"
serde = { version = "*", features = ["derive"] }
reqwest = { version = "*", default-features = false, features = ["stream", "rustls-tls"] }
tokio = { version = "*", features = ["rt-multi-thread", "macros", "sync", "time"] }
futures-util = "*"
dirs = "*"
