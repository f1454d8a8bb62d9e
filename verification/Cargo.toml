[package]
name = "planning_poker"
version = "0.1.0"
edition = "2021"
publish = false

[dependencies]
serde_json = "=1.0.151"
uuid = { version = "=1.27.0", features = ["v4"] }
chrono = "=0.4.45"
serde = { version = "=1.0.229", features = ["derive"] }
warp = { version = "=0.4.3", features = ["websocket", "server"] }
tokio = { version = "=1.53.2", features = ["macros", "rt-multi-thread", "sync"] }
tokio-stream = "=0.1.19"
futures-util = "=0.3.34"
configparser = "=3.3.0"
