[package]
name = "serial-bridge"
version = "0.1.0"
edition = "2021"
publish = false

[dependencies]
anyhow = "1"
argh = "0.1"
camino = "1"
futures-util = "0.3"
oxide = "*"
reqwest = { version = "*", default-features = false }
serde = { version = "1", features = ["derive"] }
serde_json = "1"
tokio = { version = "1", features = ["full"] }
tokio-serial = { version = "5", default-features = false }
tokio-tungstenite = "*"
url = "2"
uuid = { version = "1", features = ["serde", "v4"] }
