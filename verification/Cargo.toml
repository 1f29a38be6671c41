[package]
name = "wavoic"
version = "0.1.0"
edition = "2021"
publish = false

[dependencies]
cpal = "0.15"
symphonia = { version = "0.5", features = ["all"] }
rtrb = "0.3"
global-hotkey = "0.6"
parking_lot = "0.12"
anyhow = "1"
thiserror = "1"
serde = { version = "1", features = ["derive"] }
serde_json = "1"
tracing-subscriber = "0.3"
