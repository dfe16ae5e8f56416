[package]
name = "sentinel_wallpaper"
version = "0.1.0"
edition = "2021"
publish = false

[dependencies]
image = "*"
serde_json = "1"
serde_yaml = "*"
chrono = "0.4"
