[package]
name = "unterflow-protocol"
version = "0.1.0"
edition = "2021"
publish = false

[dependencies]
byteorder = "*"
rmp = "*"
rmp-serde = "*"
serde = { version = "*", features = ["derive"] }
serde_bytes = "*"
