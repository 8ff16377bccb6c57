[package]
name = "colorgen_nvim"
version = "0.1.0"
edition = "2021"
publish = false

[dependencies]
hex = "=0.4.3"
linked-hash-map = "=0.5.6"
clap = { version = "=4.6.7", features = ["derive"] }
serde = { version = "=1.0.229", features = ["derive"] }
toml = { version = "=1.1.7", features = ["preserve_order"] }
