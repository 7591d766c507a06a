[package]
name = "ioctiller"
version = "0.1.0"
edition = "2021"
publish = false

[dependencies]
inquire = "=0.9.4"
serde = { version = "=1.0.229", features = ["derive"] }
toml = "=1.1.8"
windows = { version = "0.59", features = ["Win32_Foundation", "Win32_Security", "Win32_Storage_FileSystem", "Win32_System_IO", "Win32_System_Threading"] }
windows-strings = "=0.5.1"
