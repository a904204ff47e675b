[package]
name = "display_scale"
version = "0.1.0"
edition = "2021"
publish = false

[dependencies]
windows-sys = { version = "*", features = ["Win32_Devices_Display", "Win32_Foundation", "Win32_Graphics_Gdi"] }
