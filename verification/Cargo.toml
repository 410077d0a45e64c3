[package]
name = "iced_pv_meet"
version = "0.1.0"
edition = "2021"
publish = false

[dependencies]
livekit-api = { version = "0.10", default-features = false, features = ["access-token"] }
rtrb = "0.3"
serde_json = "1"
cpal = "0.17"
tokio = { version = "1", features = ["rt-multi-thread", "sync", "time"] }
dotenvy = "0.15"
env_logger = "0.11"
rust-i18n = "3"
bytemuck = { version = "1", features = ["derive"] }
