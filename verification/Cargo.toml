[package]
name = "video_pipeline_editor"
version = "0.1.0"
edition = "2021"
publish = false

[dependencies]
dirs = "*"
serde = { version = "1", features = ["derive"] }
serde_json = "1"
tauri = { version = "2", default-features = false }
tokio = { version = "1", features = ["sync"] }
uuid = { version = "1", features = ["v4"] }
