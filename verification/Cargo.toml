[package]
name = "image_tags"
version = "0.1.0"
edition = "2021"
publish = false

[dependencies]
imagesize = "0.14"
serde = { version = "1", features = ["derive"] }
trash = { version = "5", default-features = false }

[dev-dependencies]
tempfile = "3"
