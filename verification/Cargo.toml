[package]
name = "tap_plugin_evtx"
version = "0.1.0"
edition = "2021"
publish = false

[dependencies]
anyhow = "=1.0.104"
chrono = "=0.4.45"
evtx = { version = "=0.8.5", default-features = false }
schemars = "=0.8.22"
serde = { version = "=1.0.229", features = ["derive"] }
serde_json = { version = "=1.0.154", features = ["preserve_order"] }
