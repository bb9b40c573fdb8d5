[package]
name = "agent_fleet"
version = "0.1.0"
edition = "2021"
publish = false

[dependencies]
md5 = "0.7"
chrono = "0.4"
serde = { version = "1", features = ["derive"] }
serde_json = "1"
pickledb = "*"
rusqlite = { version = "*", features = ["bundled"] }
uuid = { version = "1", features = ["v4"] }
local-ip-address = "*"
log = "0.4"
actix-web = "4"
actix-multipart = "*"
