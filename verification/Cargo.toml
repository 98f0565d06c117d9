[package]
name = "json_devil"
version = "0.1.0"
edition = "2021"
publish = false

[dependencies]
pdf-extract = "*"

[dev-dependencies]
serde_json = "*"
