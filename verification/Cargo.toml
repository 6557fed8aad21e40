[package]
name = "resident_ai"
version = "0.1.0"
edition = "2021"
publish = false

[dependencies]
serde_json = "1"
windows = { version = "0.58", features = ["Win32_Foundation", "Win32_Storage_FileSystem", "Win32_System_Console", "Win32_System_Pipes", "Win32_System_Threading", "Win32_Security"] }
