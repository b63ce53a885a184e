[package]
name = "media_organizer"
version = "0.1.0"
edition = "2021"
publish = false

[dependencies]
chrono = "0.4"
md-5 = "0.10"
hex = "0.4"
kamadak-exif = "0.5"
serde = { version = "1", features = ["derive"] }
serde_json = "1"
thiserror = "1"
walkdir = "2"
tokio = { version = "1", features = ["sync", "rt"] }
