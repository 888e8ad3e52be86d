[package]
name = "tgx"
version = "0.1.0"
edition = "2021"
publish = false

[dependencies]
anyhow = "=1.0.104"
chrono = "=0.4.45"
eframe = { version = "=0.37.0", default-features = false, features = ["default_fonts", "glow", "x11"] }
log = "=0.4.35"
rfd = "=0.17.2"
serde = { version = "=1.0.229", features = ["derive"] }
serde_json = { version = "=1.0.154", features = ["preserve_order"] }
tokio = { version = "=1.54.1", features = ["rt-multi-thread", "sync", "time"] }
