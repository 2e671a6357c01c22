[package]
name = "obayebar"
version = "0.1.0"
edition = "2021"
publish = false

[dependencies]
image = { version = "=0.25.10", default-features = false, features = ["png", "jpeg", "gif", "bmp"] }
url = "=2.5.8"
lru = "=0.12.5"
serde = { version = "=1.0.229", features = ["derive"] }
serde_json = "=1.0.154"
toml = "=0.8.23"
fuzzy-matcher = "=0.3.7"
freedesktop-desktop-entry = "=0.7.19"
freedesktop-icons = "=0.4.0"
fast_image_resize = "=5.5.0"
zbus = "=5.19.0"
inotify = "0.11"
