[package]
name = "webhook_bridge"
version = "0.1.0"
edition = "2021"
publish = false

[dependencies]
serde_json = "1"
serde = { version = "1", features = ["derive"] }
tokio = { version = "1", features = ["macros", "rt-multi-thread", "sync", "time"] }
warp = "0.3"
log = "0.4"
env_logger = "*"
lazy_static = "1"
zipwhip-rs = "*"
