[package]
name = "barometer"
version = "0.1.0"
edition = "2021"
publish = false

[dependencies]
serde_json = "1"
windows-sys = { version = "0.59", features = ["Win32_Foundation", "Win32_System_DataExchange", "Win32_System_Memory", "Win32_UI_WindowsAndMessaging"] }
