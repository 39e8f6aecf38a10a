[package]
name = "ccmate"
version = "0.1.0"
edition = "2021"
publish = false

[dependencies]
nanoid = "0.4"
uuid = { version = "1", features = ["v4"] }
serde_json = "1"
dirs = "*"
