[package]
name = "invoke"
version = "0.1.0"
edition = "2021"
publish = false

[dependencies]
rand = "0.8"
ggez = { version = "0.9", default-features = false }
serde = { version = "1", features = ["derive"] }
toml = "0.8"
directories = "5"
