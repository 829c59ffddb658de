[package]
name = "xcom"
version = "0.1.0"
edition = "2021"
publish = false

[dependencies]
chrono = "=0.4.45"
clap = "=4.5.53"
clap-version-flag = "=1.0.7"
make_colors = "=1.0.2"
walkdir = "=2.5.0"
winapi = { version = "=0.3.9", features = ["shellapi", "windef"] }
windows = { version = "=0.48.0", features = ["Win32_Foundation", "Win32_System_Com", "Win32_UI_Shell", "Win32_UI_Shell_Common"] }
