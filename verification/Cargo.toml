[package]
name = "bundler"
version = "0.1.0"
edition = "2021"
publish = false

[dependencies]
anyhow = "=1.0.104"
bytesize = "=1.3.3"
chrono = "=0.4.45"
clap = { version = "=4.6.7", features = ["derive"] }
colored = "=2.2.0"
dirs-next = "=2.0.0"
editpe = "=0.2.4"
fs_extra = "=1.3.0"
rand = "=0.8.8"
remove_dir_all_ext = "=0.8.4"
reqwest = { version = "=0.12.28", default-features = false, features = ["blocking"] }
serde = { version = "=1.0.229", features = ["derive"] }
serde_json = "=1.0.154"
sysinfo = "=0.30.13"
tempdir = "0.3"
winapi = { version = "=0.3.9", features = ["fileapi", "libloaderapi", "minwindef", "winuser"] }
winreg = "=0.56.0"
