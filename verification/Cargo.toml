[package]
name = "ring_agent"
version = "0.1.0"
edition = "2021"
publish = false

[dependencies]
similar = "=3.2.1"
reqwest = { version = "=0.13.5", default-features = false, features = ["json", "stream"] }
os_info = { version = "=3.15.0", default-features = false }
chrono = "=0.4.45"
uuid = { version = "=1.29.0", features = ["v4", "serde"] }
serde = { version = "=1.0.229", features = ["derive"] }
serde_json = "=1.0.154"
tokio = { version = "=1.54.1", features = ["rt", "macros", "sync", "fs", "time"] }
tokio-stream = "=0.1.19"
tokio-util = "=0.7.20"
futures-util = "=0.3.34"
bytes = "=1.12.1"
async-trait = "=0.1.92"
anyhow = "=1.0.104"
tracing = "=0.1.44"
