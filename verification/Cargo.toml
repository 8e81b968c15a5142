[package]
name = "rusttorney"
version = "0.1.0"
edition = "2021"
publish = false

[dependencies]
anyhow = "1"
bytes = "1"
deadpool-postgres = "*"
env_logger = "*"
futures = "0.3"
log = "0.4"
proc-macro2 = "1"
quote = "1"
serde = { version = "1", features = ["derive"] }
syn = { version = "1", features = ["full"] }
tokio = { version = "1", features = ["full"] }
tokio-postgres = "0.7"
tokio-util = { version = "0.7", features = ["codec"] }
toml = "*"
