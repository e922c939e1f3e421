[package]
name = "assistant_backend"
version = "0.1.0"
edition = "2021"
publish = false

[dependencies]
once_cell = "1"
reqwest = { version = "0.12", default-features = false, features = ["json"] }
serde = { version = "1", features = ["derive"] }
serde_json = "1"
tauri = { version = "2", default-features = false }
tauri-plugin-store = "2"
urlencoding = "2"
