[package]
name = "waystone-overlay"
version = "0.4.0"
edition = "2021"
publish = false

[dependencies]
global-hotkey = "0.7"
url = "2"
serde = { version = "1", features = ["derive"] }
tracing = "0.1"
tracing-appender = "0.2"
tracing-subscriber = { version = "0.3", features = ["env-filter", "fmt"] }
windows-sys = { version = "0.59", features = ["Win32_Foundation", "Win32_Graphics_Gdi", "Win32_UI_WindowsAndMessaging", "Win32_UI_Input_KeyboardAndMouse"] }
enigo = "0.5"
