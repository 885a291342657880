[package]
name = "archive_tree"
version = "0.1.0"
edition = "2021"
publish = false

[dependencies]
zip = { version = "=2.6.1", default-features = false, features = ["deflate"] }
sha2 = "=0.10.9"
uuid = { version = "=1.29.0", features = ["v4"] }
rayon = "=1.12.0"
serde = { version = "=1.0.229", features = ["derive"] }
tauri = { version = "2", default-features = false }
