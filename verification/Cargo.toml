[package]
name = "painting_pack"
version = "0.1.0"
edition = "2021"
publish = false

[dependencies]
base64 = "*"
image = "*"
rand = "*"

[dev-dependencies]
serde_json = "*"
