[package]
name = "derby_bout"
version = "0.1.0"
edition = "2021"
publish = false

[dependencies]
chrono = "0.4"
derbyjson = "*"
handlebars = "*"
lazy_static = "1"
rocket = { version = "0.5", features = ["json"] }
serde = { version = "1", features = ["derive"] }
serde_json = "1"
