[package]
name = "effective_recorder"
version = "0.1.0"
edition = "2021"
publish = false

[dependencies]
chrono = "0.4"
serde = { version = "1", features = ["derive"] }
serde_json = "1"
dirs = "*"
anyhow = "1"
log = "0.4"
env_logger = "*"
crossbeam-channel = "0.5"
opener = "*"
libc = "0.2"
ffmpeg-next = "*"
cpal = "0.15"
whisper-rs = "0.13"
