[package]
name = "mft_index"
version = "0.1.0"
edition = "2021"
publish = false

[dependencies]
windows = { version = "=0.51.1", features = ["Win32_Foundation", "Win32_Security", "Win32_Storage_FileSystem", "Win32_System_IO", "Win32_System_Ioctl"] }
