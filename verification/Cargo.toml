[package]
name = "dtube_pinner"
version = "0.1.0"
edition = "2021"
publish = false

[dependencies]
futures = "=0.1.31"
hyper = "=0.12.36"
hyper-tls = "=0.3.2"
ipfs-api = "=0.5.1"
serde = { version = "=1.0.229", features = ["derive"] }
serde_json = "=1.0.154"
tokio-core = "=0.1.18"
toml = "=0.4.10"
