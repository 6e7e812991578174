[package]
name = "scene_editor"
version = "0.1.0"
edition = "2021"
publish = false

[dependencies]
glam = "*"
parry3d = "*"
serde = { version = "1", features = ["derive"] }
serde_json = "1"
sha2 = "0.10"
uuid = { version = "1", features = ["v4"] }
