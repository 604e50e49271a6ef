[package]
name = "moon_win32_utils"
version = "0.1.0"
edition = "2021"
publish = false

[dependencies]
rand = "0.8"
windows = { version = "0.58", features = ["Win32_Foundation", "Win32_Storage_FileSystem", "Win32_System_SystemInformation", "Win32_System_Registry", "Win32_System_IO", "Win32_Security", "Win32_System_Threading", "Win32_System_Memory", "Win32_System_LibraryLoader"] }
