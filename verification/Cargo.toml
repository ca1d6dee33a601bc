[package]
name = "tideline"
version = "0.1.0"
edition = "2021"
publish = false

[dependencies]
serde = { version = "1", features = ["derive"] }
serde_json = "1"
uuid = { version = "1", features = ["v4", "serde"] }
base64 = "0.22"
tokio = { version = "1", features = ["full"] }
async-trait = "0.1"
tracing = "0.1"
tracing-subscriber = { version = "0.3", features = ["env-filter", "json"] }
tracing-appender = "0.2"
dirs = "*"
which = "*"
tempfile = "3"
anyhow = "1"
thiserror = "*"
libc = "0.2"
futures-util = "0.3"
rosc = "*"
parking_lot = "0.12"

[dev-dependencies]
toml = "*"
