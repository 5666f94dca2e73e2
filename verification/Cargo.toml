[package]
name = "figurine_studio"
version = "0.1.0"
edition = "2021"
publish = false

[dependencies]
base64 = "0.22"
serde = { version = "1", features = ["derive"] }
serde_json = "1"
rusqlite = { version = "0.32", features = ["bundled"] }
uuid = { version = "1", features = ["v4"] }
chrono = "0.4"
anyhow = "1"
thiserror = "2"
log = "0.4"
env_logger = "0.11"
reqwest = { version = "0.12", default-features = false, features = ["json", "multipart", "stream", "rustls-tls"] }
tokio = { version = "1", features = ["time", "rt-multi-thread", "macros"] }
futures-util = "0.3"
async-trait = "0.1"
image = { version = "0.25", default-features = false, features = ["png", "jpeg"] }
color_quant = "1"
