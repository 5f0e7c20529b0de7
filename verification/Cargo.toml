[package]
name = "lead_desk"
version = "0.1.0"
edition = "2021"
publish = false

[dependencies]
url = "2"
uuid = { version = "1", features = ["v4"] }
chrono = "0.4"
rusqlite = { version = "*", features = ["bundled"] }
csv = "1"
serde = { version = "1", features = ["derive"] }
serde_json = "1"
thiserror = "*"
