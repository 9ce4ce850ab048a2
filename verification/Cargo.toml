[package]
name = "pashari"
version = "0.1.0"
edition = "2021"
publish = false

[dependencies]
arboard = "3"
chrono = "0.4"
global-hotkey = "*"
image = { version = "0.25", default-features = false, features = ["png"] }
serde = { version = "1", features = ["derive"] }
serde_json = "1"
toml = "*"
ureq = { version = "3", features = ["json"] }
