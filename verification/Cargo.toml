[package]
name = "vortexdl"
version = "0.1.0"
edition = "2021"
publish = false

[dependencies]
tokio = { version = "=1.54.1", features = ["sync", "process", "net", "io-util", "time", "rt-multi-thread", "macros", "fs"] }
regex = "=1.13.1"
serde = { version = "=1.0.229", features = ["derive"] }
serde_json = "=1.0.154"
anyhow = "=1.0.104"
colored = "=3.1.1"
indicatif = "=0.18.6"
tracing = "=0.1.44"
axum = { version = "=0.8.9", features = ["ws"] }
tower = { version = "=0.5.3", features = ["util"] }
tower-http = { version = "=0.6.11", features = ["cors", "fs"] }
url = "=2.5.8"
futures-util = "=0.3.34"
bytes = "=1.12.1"
reqwest = { version = "=0.12.28", default-features = false, features = ["json", "stream"] }
async-stream = "=0.3.6"
utoipa = "=5.5.0"
soundcloud-rs = "*"
