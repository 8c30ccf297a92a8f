[package]
name = "gules"
version = "0.1.0"
edition = "2021"
publish = false

[dependencies]
anyhow = "=1.0.104"
chrono = { version = "=0.4.45", features = ["serde"] }
clap = { version = "=4.6.7", features = ["derive"] }
colored = "=2.2.0"
comfy-table = "=7.2.2"
dirs = "=5.0.1"
regex = "=1.13.1"
reqwest = { version = "=0.12.28", features = ["json"] }
rmcp = { version = "=3.7.0", features = ["transport-io"] }
schemars = "=1.2.3"
serde = { version = "=1.0.229", features = ["derive"] }
serde_json = "=1.0.154"
tokio = { version = "=1.54.1", features = ["full"] }
toml = "=0.8.23"
tracing = "=0.1.44"
urlencoding = "=2.1.3"
