[package]
name = "worktree_manager"
version = "0.1.0"
edition = "2021"
publish = false

[dependencies]
serde = { version = "1", features = ["derive"] }
serde_json = "1"
walkdir = "2"
opener = "*"
log = "0.4"
tokio = { version = "1", features = ["net"] }
axum = "*"
tauri = { version = "2", default-features = false }
