[package]
name = "yadl"
version = "0.1.0"
edition = "2021"
publish = false

[dependencies]
anyhow = "1"
clap = { version = "4", features = ["derive", "env"] }
futures-util = "0.3"
indicatif = "0.17"
percent-encoding = "=2.3.2"
reqwest = { version = "=0.12.28", default-features = false, features = ["charset", "cookies", "http2", "rustls-tls", "stream", "system-proxy"] }
serde = { version = "1", features = ["derive"] }
serde_json = "=1.0.154"
tokio = { version = "1", features = ["fs", "io-util", "macros", "rt-multi-thread"] }
