[package]
name = "activity_archive"
version = "0.1.0"
edition = "2021"
publish = false

[dependencies]
regex = "=1.13.1"
url = "=2.5.8"
uuid = { version = "=1.29.0", features = ["v4"] }
chrono = { version = "=0.4.45", features = ["serde"] }
serde = { version = "=1.0.229", features = ["derive"] }
serde_json = "=1.0.154"
rusqlite = { version = "=0.41.1", features = ["bundled"] }
tokio = { version = "=1.54.1", features = ["full"] }
futures = "=0.3.34"
async-stream = "=0.3.6"
async-trait = "=0.1.92"
anyhow = "=1.0.104"
parking_lot = "=0.12.5"
notify = "=8.2.1"
windows-service = "=0.8.1"
winreg = "=0.56.0"
