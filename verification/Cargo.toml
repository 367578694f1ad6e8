[package]
name = "live_scratch"
version = "0.1.0"
edition = "2021"
publish = false

[dependencies]
base64 = "0.22"
dirs = "*"
env_logger = "0.11"
log = "0.4"
notify = "*"
notify-debouncer-full = "*"
serde_json = "1"
zip = { version = "2", default-features = false, features = ["deflate"] }
