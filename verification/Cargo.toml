[package]
name = "audio-mirror"
version = "0.1.0"
edition = "2021"
publish = false

[dependencies]
cpal = "*"
libpulse-sys = "*"
log = "0.4"
parking_lot = "*"
rtrb = "*"
rubato = "*"
self-replace = "*"
serde = { version = "1", features = ["derive"] }
serde_json = "1"
sys-locale = "*"
