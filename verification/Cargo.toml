[package]
name = "organizer"
version = "0.1.0"
edition = "2021"
publish = false

[dependencies]
natord = "1"
infer = "*"
image = { version = "0.25", default-features = false, features = ["png", "jpeg", "gif", "webp", "tiff", "bmp"] }
png = "0.18"
fast_image_resize = "5"
serde = { version = "1", features = ["derive"] }
serde_json = "1"
chrono = "0.4"
sea-orm = { version = "1", default-features = false, features = ["macros", "sqlx-sqlite", "runtime-tokio-rustls", "with-chrono"] }
tokio = { version = "1", features = ["rt-multi-thread", "macros"] }
log = "0.4"
