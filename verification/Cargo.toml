[package]
name = "gmorph"
version = "0.1.0"
edition = "2021"
publish = false

[dependencies]
modinverse = "*"
rand = "*"
serde = { version = "*", features = ["derive"] }
serde_json = "*"
