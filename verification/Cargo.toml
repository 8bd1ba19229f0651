[package]
name = "massa_protocol"
version = "0.1.0"
edition = "2021"
publish = false

[dependencies]
rand = "=0.6.5"
futures = "=0.3.34"
log = "=0.4.35"
serde = { version = "=1.0.229", features = ["derive"] }
serde_json = "=1.0.154"
tokio = { version = "0.3", features = ["full"] }
