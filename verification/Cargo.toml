[package]
name = "nimbus"
version = "0.1.0"
edition = "2021"
publish = false

[dependencies]
uuid = { version = "*", features = ["v4"] }
serde = "*"
serde_derive = "*"
serde_json = "*"
