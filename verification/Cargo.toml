[package]
name = "efa_metrics"
version = "0.1.0"
edition = "2021"
publish = false

[dependencies]
anyhow = "=1.0.104"
aws-config = { version = "=1.13.0", default-features = false, features = ["default-https-client", "rt-tokio"] }
log = { version = "=0.4.35", features = ["kv"] }
prometheus = "=0.14.0"
tokio = { version = "=1.54.1", features = ["rt"] }
