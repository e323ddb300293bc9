[package]
name = "ruter"
version = "0.6.0"
edition = "2021"
publish = false

[dependencies]
anyhow = "1"
chrono = { version = "0.4", features = ["serde"] }
clap = { version = "4", features = ["derive"] }
dirs = "6"
objc2 = "0.6"
objc2-core-location = "0.3"
objc2-foundation = "0.3"
ratatui = "*"
serde = { version = "1", features = ["derive"] }
serde_json = "1"
toml = "*"
ureq = { version = "3", features = ["json"] }
