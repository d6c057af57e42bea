[package]
name = "fall"
version = "0.1.0"
edition = "2021"
publish = false

[dependencies]
rand = "0.5"
ggez = "0.5"
serde = { version = "1", features = ["derive"] }
toml = "0.4"
