[package]
name = "sync_hub"
version = "0.1.0"
edition = "2021"
publish = false

[dependencies]
chrono = "=0.4.45"
futures-util = "=0.3.34"
serde_json = "=1.0.151"
tokio = { version = "=1.53.2", features = ["sync", "macros", "rt-multi-thread"] }
uuid = { version = "=1.27.0", features = ["v4"] }
warp = { version = "=0.4.3", features = ["server", "websocket"] }
