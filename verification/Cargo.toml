[package]
name = "tedge_gateway"
version = "0.1.0"
edition = "2021"
publish = false

[dependencies]
anyhow = "1"
camino = "1"
clap = { version = "4", features = ["derive"] }
futures = "0.3"
rumqttc = "*"
serde = { version = "1", features = ["derive"] }
serde_json = "1"
thiserror = "1"
time = { version = "0.3", features = ["formatting", "parsing"] }
tokio = { version = "1", features = ["rt", "macros", "fs", "sync", "time"] }
toml = "0.5"
tracing = "0.1"
