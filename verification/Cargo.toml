[package]
name = "rtop"
version = "0.1.0"
edition = "2021"
publish = false

[dependencies]
anyhow = "1"
bollard = "0.16"
bytesize = "1"
chrono = "0.4"
crossterm = "0.27"
dirs = "5"
futures-util = "0.3"
libc = "0.2"
mysql_async = { version = "0.34", default-features = false }
nvml-wrapper = "0.10"
ratatui = "0.26"
serde = { version = "1", features = ["derive"] }
serde_json = "1"
sysinfo = "0.30"
tokio = { version = "1", features = ["full"] }
tokio-postgres = "0.7"
toml = "0.8"
tracing = "0.1"
