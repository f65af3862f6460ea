[package]
name = "bevy_api_gen"
version = "0.1.0"
edition = "2021"
publish = false

[dependencies]
indexmap = "2"
rustdoc-types = "*"
serde_json = "1"
serde = { version = "1", features = ["derive"] }
toml = "*"
clap = { version = "4", features = ["derive"] }
