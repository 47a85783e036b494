[package]
name = "anvi-core"
version = "0.1.0"
edition = "2021"
publish = false

[dependencies]
rmpv = "=1.3.1"
nvim-rs = { version = "=0.9.2", features = ["use_tokio"] }
async-trait = "=0.1.92"
tokio = { version = "=1.54.1", features = ["rt-multi-thread", "macros", "net", "process", "sync", "time", "io-util"] }
anyhow = "=1.0.104"
tracing = "=0.1.44"
tracing-subscriber = { version = "=0.3.23", features = ["env-filter"] }
raw-window-handle = "=0.6.2"
winit = { version = "=0.30.13", default-features = false, features = ["rwh_06", "x11"] }
tray-icon = { version = "=0.26.1", default-features = false }
global-hotkey = "=0.9.0"
windows = { version = "=0.62.2", features = ["Win32_Foundation", "Win32_Graphics_Direct2D", "Win32_Graphics_Direct2D_Common", "Win32_Graphics_Direct3D", "Win32_Graphics_Direct3D11", "Win32_Graphics_DirectComposition", "Win32_Graphics_DirectWrite", "Win32_Graphics_Dxgi", "Win32_Graphics_Dxgi_Common", "Win32_Graphics_Gdi", "Win32_System_Com", "Win32_System_DataExchange", "Win32_System_Memory", "Win32_System_Ole", "Win32_System_Registry", "Win32_System_Threading", "Win32_System_Variant", "Win32_UI_Accessibility", "Win32_UI_Input_KeyboardAndMouse", "Win32_UI_WindowsAndMessaging"] }
windows-numerics = "=0.3.1"
