[package]
name = "zhipukit"
version = "0.1.0"
edition = "2021"
publish = false

[dependencies]
serde = { version = "=1.0.229", features = ["derive"] }
serde_json = "=1.0.154"
log = "=0.4.35"
tokio = { version = "1", default-features = false, features = ["rt-multi-thread", "macros", "process", "fs", "time"] }
reqwest = { version = "0.12", default-features = false, features = ["rustls-tls"] }
