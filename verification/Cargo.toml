[package]
name = "egui_json_tree"
version = "0.1.0"
edition = "2021"
publish = false

[dependencies]
egui = { version = "*", default-features = false }
serde_json = { version = "*", features = ["preserve_order"] }
