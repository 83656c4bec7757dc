[package]
name = "matrix_adk_agent"
version = "0.1.0"
edition = "2021"
publish = false

[dependencies]
adk-rust = { version = "=0.9.1", default-features = false, features = ["agents", "openai", "runner", "sessions", "tools"] }
anyhow = "=1.0.104"
dotenvy = "=0.15.7"
matrix-sdk = { version = "=0.16.1", default-features = false, features = ["rustls-tls"] }
serde_json = "=1.0.154"
tokio = { version = "=1.54.1", features = ["macros", "rt-multi-thread"] }
