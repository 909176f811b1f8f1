[package]
name = "gallery_organizer"
version = "0.1.0"
edition = "2021"
publish = false

[dependencies]
anyhow = "1"
base64 = "0.22"
chrono = "0.4"
env_logger = "*"
hex = "0.4"
image = { version = "0.25", default-features = false, features = ["jpeg", "png", "webp", "tiff"] }
image_hasher = "*"
kamadak-exif = "*"
rayon = "1"
serde = { version = "1", features = ["derive"] }
serde_json = "1"
sqlx = { version = "0.8", default-features = false, features = ["sqlite", "runtime-tokio"] }
tempfile = "3"
tokio = { version = "1", features = ["rt-multi-thread", "sync", "macros"] }
trash = "*"
walkdir = "2"
webp = { version = "*", default-features = false }
zune-jpeg = "*"
