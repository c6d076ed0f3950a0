[package]
name = "transcribe-server"
version = "0.0.4"
edition = "2021"
publish = false

[dependencies]
axum = { version = "0.8", features = ["ws", "multipart"] }
clap = { version = "4", features = ["derive", "env"] }
ffmpeg-next = "*"
hound = "3"
serde = { version = "1", features = ["derive"] }
serde_json = "1"
tempfile = "3"
thiserror = "2"
tokio = { version = "1", features = ["full"] }
tracing = "0.1"
tracing-subscriber = { version = "0.3", features = ["env-filter"] }
