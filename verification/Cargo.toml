[package]
name = "agents"
version = "0.1.0"
edition = "2021"
publish = false

[dependencies]
serde_json = "1"
uuid = { version = "1", features = ["v4", "serde"] }
serde = { version = "1", features = ["derive"] }
serde_yaml = "0.9"
regex = "1"
tokio = { version = "1", features = ["sync", "rt", "macros", "time"] }
async-trait = "0.1"
anyhow = "1"
futures = "0.3"
tracing = "0.1"
chrono = "0.4"
once_cell = "1"
lazy_static = "1"
glob = "0.3"
walkdir = "2"
inquire = "0.7"
colored = "2"
indicatif = "0.17"
