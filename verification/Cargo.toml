[package]
name = "lust_termina"
version = "0.1.0"
edition = "2021"
publish = false

[dependencies]
eframe = { version = "0.35", default-features = false, features = ["glow", "x11", "default_fonts"] }
alacritty_terminal = { version = "0.26", default-features = false }
portable-pty = "0.9"
serde = { version = "1", features = ["derive"] }
toml = "*"
windows = { version = "*", features = ["Win32_Foundation", "Win32_Graphics_Gdi", "Win32_Storage_FileSystem", "Win32_Storage_Packaging_Appx", "Win32_UI_Shell", "Win32_UI_WindowsAndMessaging"] }
