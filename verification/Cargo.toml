[package]
name = "desktop_service"
version = "1.0.0"
edition = "2021"
publish = false

[dependencies]
sysinfo = "=0.29.11"
interfaces = "=0.0.9"
warp = "0.3"
tokio = { version = "1", features = ["rt-multi-thread"] }
serde = { version = "1", features = ["derive"] }
once_cell = "1"
parking_lot = "*"
windows-service = "*"
