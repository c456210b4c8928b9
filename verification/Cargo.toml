[package]
name = "minigame_client"
version = "0.1.0"
edition = "2021"
publish = false

[dependencies]
reqwest = { version = "*", default-features = false }

[dev-dependencies]
serde_json = "*"
