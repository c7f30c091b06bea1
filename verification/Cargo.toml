[package]
name = "xors"
version = "0.1.0"
edition = "2021"
publish = false

[dependencies]
rand = "=0.8.8"
passwords = { version = "=3.1.18", features = ["common-password"] }
uuid = { version = "=1.27.0", features = ["v4"] }
serde = { version = "=1.0.229", features = ["derive"] }
serde_json = "=1.0.151"
