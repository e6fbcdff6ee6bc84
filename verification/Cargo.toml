[package]
name = "browser_launcher"
version = "0.1.0"
edition = "2021"
publish = false

[dependencies]
anyhow = "1"
log = "0.4"
log4rs = "1"
regex = "1"
serde = { version = "1", features = ["derive"] }
thiserror = "1"
toml = { version = "0.8", features = ["preserve_order"] }
winreg = "0.52"
