[package]
name = "alvr_capture"
version = "0.1.0"
edition = "2021"
publish = false

[dependencies]
chrono = "=0.4.45"
flume = "=0.12.0"
serde = { version = "=1.0.229", features = ["derive"] }
serde_json = "=1.0.154"
rand = "=0.10.3"
ico = "=0.6.0"
env_logger = "=0.11.11"
log = "=0.4.35"
rodio = { version = "=0.21.1", default-features = false, features = ["playback"] }
eframe = { version = "=0.37.0", default-features = false, features = ["glow", "x11"] }
windows = { version = "=0.54.0", features = ["Win32_Foundation", "Win32_Graphics_Gdi", "Win32_System_Threading", "Win32_UI_Input_KeyboardAndMouse", "Win32_UI_WindowsAndMessaging"] }
