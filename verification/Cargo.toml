[package]
name = "editors_engine"
version = "0.1.0"
edition = "2021"
publish = false

[dependencies]
serde = { version = "1", features = ["derive"] }
serde_json = "1"
crc32fast = "1"
uuid = { version = "1", features = ["v4"] }
chrono = "0.4"
libc = "0.2"
log = "0.4"
env_logger = "0.11"
thiserror = "1"
zip = "*"
