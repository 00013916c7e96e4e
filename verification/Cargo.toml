[package]
name = "volume_control_rs"
version = "0.1.0"
edition = "2021"
publish = false

[dependencies]
libpulse-binding = "=2.30.1"
log = "=0.4.35"
windows = { version = "0.48", features = ["Win32_Foundation", "Win32_Media_Audio", "Win32_Media_Audio_Endpoints", "Win32_System_Com", "Win32_System_Com_StructuredStorage", "Win32_Devices_FunctionDiscovery", "Win32_UI_Shell_PropertiesSystem", "Win32_System_Threading", "Win32_Security"] }
