[package]
name = "gemlite"
version = "0.1.0"
edition = "2021"
publish = false

[dependencies]
infer = "*"
mime_guess = "2"
serde = { version = "1", features = ["derive"] }
serde_json = "1"
ureq = { version = "2", features = ["json"] }
