[package]
name = "shared"
version = "0.1.0"
edition = "2021"
publish = false

[dependencies]
im = "15"
rand = "0.8"
uuid = "1"
serde = { version = "1", features = ["derive"] }
serde_json = "1"
