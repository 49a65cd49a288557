[package]
name = "pezzottify"
version = "0.1.0"
edition = "2021"
publish = false

[dependencies]
prometheus = { version = "*", default-features = false }
sha2 = "*"
serde = { version = "*", features = ["derive"] }
serde_json = "*"
uuid = { version = "*", features = ["v4"] }
