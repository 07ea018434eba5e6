[package]
name = "multicast-rs"
version = "1.2.0"
edition = "2021"
publish = false

[dependencies]
socket2 = "0.5"
serde = { version = "1", features = ["derive"] }
serde_json = "1"
bincode = { version = "2", features = ["serde"] }
