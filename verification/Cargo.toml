[package]
name = "tabularis-clickhouse-plugin"
version = "0.1.0"
edition = "2021"
publish = false

[dependencies]
clickhouse = "=0.13.3"
serde_json = { version = "=1.0.154", features = ["preserve_order"] }
tokio = { version = "=1.54.1", features = ["rt-multi-thread"] }
