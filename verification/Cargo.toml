[package]
name = "floatkeys"
version = "0.1.0"
edition = "2021"
publish = false

[dependencies]
windows-sys = { version = "0.59", features = ["Win32_Foundation", "Win32_Graphics_Gdi", "Win32_UI_Input_KeyboardAndMouse", "Win32_UI_WindowsAndMessaging", "Win32_System_Threading", "Win32_System_SystemInformation", "Win32_UI_Accessibility", "Win32_System_DataExchange", "Win32_System_Memory", "Win32_System_Registry", "Win32_System_LibraryLoader", "Win32_Security"] }
