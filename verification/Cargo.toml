[package]
name = "d2rhub"
version = "0.1.0"
edition = "2021"
publish = false

[dependencies]
serde = { version = "1", features = ["derive"] }
serde_json = "1"
chrono = "0.4"
dirs = "5"
log = "0.4"
parking_lot = "0.12"
sysinfo = "0.32"
tokio = { version = "1", features = ["rt", "time"] }
windows = { version = "0.58", features = ["Win32_Foundation", "Win32_Security_Cryptography", "Win32_System_Com"] }
winreg = "0.52"
