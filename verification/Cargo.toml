[package]
name = "portus-window"
version = "0.1.0"
edition = "2021"
publish = false

[dependencies]
url = "2"
serde = { version = "1", features = ["derive"] }
serde_json = "1"
uuid = { version = "1", features = ["v4"] }
time = { version = "0.3", features = ["formatting"] }
rusqlite = { version = "*", features = ["bundled"] }
clap = { version = "4", features = ["derive", "env"] }
tokio = { version = "1", features = ["full"] }
thiserror = "*"
dirs = "*"
parking_lot = "0.12"
png = "*"
tempfile = "3"
