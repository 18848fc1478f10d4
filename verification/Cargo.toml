[package]
name = "sfx_instant"
version = "0.1.0"
edition = "2021"
publish = false

[dependencies]
uuid = { version = "=1.27.0", features = ["v4"] }
windows = { version = "=0.48.0", features = ["Win32_Foundation", "Win32_System_LibraryLoader"] }
structopt = "=0.3.26"
zip = "=8.6.0"
walkdir = "=2.5.0"
