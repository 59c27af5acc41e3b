[package]
name = "example_gallery"
version = "0.1.0"
edition = "2021"
publish = false

[dependencies]
anyhow = "1"
handlebars = "*"
pulldown-cmark = { version = "*", default-features = false, features = ["html"] }
regex = "1"
serde = { version = "1", features = ["derive"] }
serde_yaml = "0.9"
tempfile = "3"
