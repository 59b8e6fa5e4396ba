[package]
name = "wiblue_lib"
version = "0.1.0"
edition = "2021"
publish = false

[dependencies]
systemstat = "*"
serde = { version = "*", features = ["derive"] }
serde_json = "*"
