[package]
name = "memo_stt"
version = "0.1.0"
edition = "2021"
publish = false

[dependencies]
anyhow = "*"
audiopus = "*"
btleplug = "*"
cpal = "*"
dirs = "*"
enigo = "*"
futures = "*"
log = "*"
rdev = "*"
serde_json = "*"
tokio = { version = "*", features = ["full"] }
ureq = "*"
uuid = "*"
whisper-rs = "*"
