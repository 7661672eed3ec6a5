[package]
name = "fdw_bridge"
version = "0.1.0"
edition = "2021"
publish = false

[dependencies]
chrono = "=0.4.45"
clickhouse-rs = "=1.1.0-alpha.1"
either = "=1.19.0"
regex = "=1.13.1"
serde_json = "=1.0.154"
tokio = { version = "=1.54.1", features = ["rt"] }
uuid = "=1.29.0"
