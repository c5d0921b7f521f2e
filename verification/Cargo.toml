[package]
name = "screen_lock_status"
version = "0.1.0"
edition = "2021"
publish = false

[dependencies]
zbus = "3"
windows = { version = "0.52", features = ["Win32_Foundation", "Win32_Graphics_Gdi", "Win32_System_LibraryLoader", "Win32_System_RemoteDesktop", "Win32_UI_Input_KeyboardAndMouse", "Win32_UI_WindowsAndMessaging"] }
core-foundation = "0.9"
core-graphics = "0.23"
