[package]
name = "aimesh"
version = "0.1.0"
edition = "2021"
publish = false

[dependencies]
blake3 = "*"
hex = "*"
uuid = { version = "*", features = ["v7"] }
serde = { version = "*", features = ["derive"] }
serde_json = "*"
