[package]
name = "yarm"
version = "0.1.0"
edition = "2021"
publish = false

[dependencies]
anyhow = "1"
clap = { version = "4", features = ["derive"] }
directories = "5"
env_logger = { version = "0.11", default-features = false }
iced = { version = "0.13", default-features = false, features = ["tiny-skia", "tokio"] }
log = "0.4"
serde = { version = "1", features = ["derive"] }
toml = "0.8"
windows = { version = "0.58", features = ["Win32_Devices_Display", "Win32_Foundation", "Win32_Graphics_Gdi", "Win32_System_Console"] }
