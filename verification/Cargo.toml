[package]
name = "token_optimizer"
version = "0.1.0"
edition = "2021"
publish = false

[dependencies]
serde = { version = "1", features = ["derive"] }
serde_json = "1"
toml = "0.8"
ureq = "2"
rdev = "0.5"
arboard = "3"
tray-icon = "0.14"
image = { version = "0.25", default-features = false, features = ["png"] }
windows-sys = { version = "0.52", features = ["Win32_Foundation", "Win32_UI_WindowsAndMessaging"] }
log = "0.4"
env_logger = "0.11"
chrono = "0.4"
