[package]
name = "dictation_core"
version = "0.1.0"
edition = "2021"
publish = false

[dependencies]
anyhow = "1"
cpal = "0.15"
enigo = "0.3"
env_logger = "0.11"
log = "0.4"
rdev = "0.5"
rodio = "0.20"
samplerate = "0.2"
serde = { version = "1", features = ["derive"] }
serde_json = "1"
