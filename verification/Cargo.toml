[package]
name = "xouse"
version = "0.1.0"
edition = "2021"
publish = false

[dependencies]
toml_edit = "=0.22.27"
toml = "=0.8.23"
serde = { version = "=1.0.229", features = ["derive"] }
log = "=0.4.34"
anyhow = "=1.0.104"
thiserror = "=1.0.69"
gilrs = "=0.11.2"
mouce = "=0.3.0"
rdev = { version = "=0.5.3", features = ["serialize"] }
mlua = { version = "=0.12.2", features = ["lua54", "vendored"] }
tauri = { version = "=2.12.5", default-features = false }
tauri-plugin-log = "=2.10.1"
windows = { version = "=0.62.2", features = ["Win32_Foundation", "Win32_System_Com", "Win32_UI_Input_KeyboardAndMouse", "Win32_UI_Shell"] }
