[package]
name = "cantara"
version = "0.1.0"
edition = "2021"
publish = false

[dependencies]
cantara-songlib = "=0.3.0"
rgb = "*"
dirs = "*"
serde = { version = "*", features = ["derive"] }
serde_json = "*"
log = "*"
tempfile = "*"
zip = "*"
reqwest = { version = "*", default-features = false, features = ["blocking"] }
