[package]
name = "windows-wfp"
version = "0.1.0"
edition = "2021"
publish = false

[dependencies]
thiserror = "=1.0.69"
windows = { version = "=0.58.0", features = ["Win32_Foundation", "Win32_NetworkManagement_WindowsFilteringPlatform", "Win32_System_Rpc", "Win32_Security", "Win32_Security_Authorization"] }
