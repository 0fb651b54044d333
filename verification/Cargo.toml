[package]
name = "aim_room"
version = "0.2.0"
edition = "2021"
publish = false

[dependencies]
glam = "*"
raylib = "*"
serde = { version = "1", features = ["derive"] }
serde_json = "1"
