[package]
name = "shortcut_hero"
version = "0.1.0"
edition = "2021"
publish = false

[dependencies]
anyhow = "1"
copypasta = "0.10"
inputbot = "*"
native-dialog = "*"
rand = "0.8"
reqwest = { version = "0.12", default-features = false, features = ["blocking", "json"] }
serde = { version = "1", features = ["derive"] }
serde_json = "1"
