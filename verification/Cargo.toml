[package]
name = "s2s_vulkan"
version = "0.1.0"
edition = "2021"
publish = false

[dependencies]
anyhow = "1"
async-trait = "0.1"
axum = { version = "0.8", features = ["ws", "multipart"] }
base64 = "0.22"
bytes = "1"
clap = { version = "4", features = ["derive", "env"] }
cpal = "0.15"
futures-util = "0.3"
hex = "0.4"
hound = "3.5"
multer = "3"
parking_lot = "0.12"
reqwest = { version = "0.12", default-features = false, features = ["json", "multipart", "stream"] }
rubato = "0.15"
rusqlite = "0.32"
serde = { version = "1", features = ["derive"] }
serde_json = "1"
sha2 = "0.10"
tokio = { version = "1", features = ["full"] }
tower-http = { version = "0.6", features = ["cors"] }
tracing = "0.1"
tracing-subscriber = { version = "0.3", features = ["env-filter"] }
uuid = { version = "1", features = ["v4"] }
