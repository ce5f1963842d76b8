[package]
name = "zzdns"
version = "0.1.0"
edition = "2021"
publish = false

[dependencies]
anyhow = "1"
bytes = "1"
domain = { version = "0.7", features = ["bytes", "std"] }
log = "0.4"
pretty_env_logger = "0.4"
serde = { version = "1", features = ["derive"] }
serde_json = "1"
stretto = { version = "0.8", features = ["async"] }
tokio = { version = "1", features = ["full"] }
