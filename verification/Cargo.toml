[package]
name = "wideval"
version = "0.1.0"
edition = "2021"
publish = false

[dependencies]
auto-launch = "0.5"
chrono = "0.4"
image = { version = "0.25", default-features = false, features = ["png"] }
serde = { version = "1", features = ["derive"] }
serde_json = "1"
windows = { version = "0.58", features = ["Win32_Foundation", "Win32_Graphics_Gdi", "Win32_System_ProcessStatus", "Win32_System_Threading"] }
winreg = "0.52"
