[package]
name = "esker"
version = "0.1.0"
edition = "2021"
publish = false

[dependencies]
chrono = "0.4"
pulldown-cmark = "0.9"
slugify = "*"
tera = "1"
serde = { version = "1", features = ["derive"] }
