[package]
name = "cue_bridge"
version = "0.1.0"
edition = "2021"
publish = false

[dependencies]
rosc = "=0.11.4"
rship-sdk = "=0.1.20"
anyhow = "=1.0.104"
tokio = { version = "=1.53.2", features = ["full"] }
uuid = { version = "=1.27.0", features = ["v4"] }
serde = { version = "=1.0.229", features = ["derive"] }
schemars = "0.8"
