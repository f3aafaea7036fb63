[package]
name = "gif_editor"
version = "0.1.0"
edition = "2021"
publish = false

[dependencies]
egui = { version = "0.32", default-features = false, features = ["default_fonts"] }
serde = { version = "1", features = ["derive"] }
serde_json = "1"
thiserror = "2"
uuid = { version = "1", features = ["v4"] }
