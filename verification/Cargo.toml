[package]
name = "image_service"
version = "0.1.0"
edition = "2021"
publish = false

[dependencies]
base64 = "0.13"
serde = { version = "1", features = ["derive"] }
actix-web = "4"
opencv = "*"
