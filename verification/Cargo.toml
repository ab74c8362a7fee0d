[package]
name = "host_inventory"
version = "0.1.0"
edition = "2021"
publish = false

[dependencies]
wmi = "=0.18.4"
winreg = "=0.56.0"
windows = { version = "=0.62.2", features = ["Win32_Foundation", "Win32_System_Com", "Win32_System_Ole", "Win32_System_TaskScheduler", "Win32_System_Variant"] }
