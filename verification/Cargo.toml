[package]
name = "modelsocket"
version = "0.1.0"
edition = "2021"
publish = false

[dependencies]
uuid = { version = "1", features = ["v4"] }
serde = { version = "1", features = ["derive"] }
serde_json = "1"
http = "1"
tokio-tungstenite = "0.24"
tokio = { version = "1", features = ["full"] }
futures = "0.3"
futures-util = "0.3"
thiserror = "1"
anyhow = "1"
async-trait = "0.1"
tracing = "0.1"
url = "2"
rustls = { version = "0.23", default-features = false, features = ["ring", "std"] }
once_cell = "1"
pyo3 = "*"
