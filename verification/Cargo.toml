[package]
name = "tinytodo_types"
version = "0.1.0"
edition = "2021"
publish = false

[dependencies]
cedar-policy = "*"
serde = { version = "*", features = ["derive"] }
