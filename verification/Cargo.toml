[package]
name = "fred"
version = "0.1.0"
edition = "2021"
publish = false

[dependencies]
winapi = { version = "0.3", features = ["memoryapi", "winnt", "processthreadsapi", "consoleapi", "wincon", "minwinbase", "minwindef"] }
windows-sys = { version = "0.48", features = ["Win32_Foundation", "Win32_Security", "Win32_System_LibraryLoader", "Win32_System_SystemServices", "Win32_UI_WindowsAndMessaging", "Win32_System_Diagnostics_Debug", "Win32_System_Memory", "Win32_System_Threading"] }
libc = "0.2"
libc-stdhandle = "0.1"
once_cell = "1"
detours-sys = "0.1"
