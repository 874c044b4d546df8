[package]
name = "tail_f_plot"
version = "0.1.0"
edition = "2021"
publish = false

[dependencies]
clap = { version = "4", features = ["derive"] }
eframe = { version = "*", default-features = false, features = ["glow", "default_fonts", "x11"] }
egui = "*"
egui_plot = "*"
notify = "*"
windows-sys = { version = "*", features = ["Win32_Foundation", "Win32_System_Console", "Win32_UI_WindowsAndMessaging", "Win32_Storage_FileSystem", "Win32_Graphics_Gdi", "Win32_UI_HiDpi"] }
