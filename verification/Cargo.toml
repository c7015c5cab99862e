[package]
name = "redis_exporter"
version = "0.1.0"
edition = "2021"
publish = false

[dependencies]
anyhow = "*"
axum = "*"
clap = { version = "*", features = ["derive"] }
env_logger = "*"
futures-util = "*"
log = "*"
serde = { version = "*", features = ["derive"] }
serde_yml = "*"
thiserror = "*"
tokio = { version = "*", features = ["macros", "rt-multi-thread", "signal", "time", "net", "io-util"] }
tokio-util = "*"
