[package]
name = "scrcpy_custom"
version = "0.1.0"
edition = "2021"
publish = false

[dependencies]
bytes = "=1.12.1"
reed-solomon-erasure = "=6.0.0"
bincode = "=1.3.3"
serde = { version = "=1.0.229", features = ["derive"] }
thiserror = "=1.0.69"
tokio = { version = "=1.54.1", features = ["full"] }
tracing = "=0.1.44"
async-trait = "=0.1.92"
clap = { version = "=4.6.7", features = ["derive"] }
quinn = "=0.11.12"
tracing-subscriber = { version = "0.3", features = ["env-filter"] }
ffmpeg-next = "*"
cpal = "*"
