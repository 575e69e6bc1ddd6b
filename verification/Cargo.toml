[package]
name = "alice_animation"
version = "0.1.0"
edition = "2021"
publish = false

[dependencies]
alice-sdf = "*"
bincode = "1"
crc32fast = "*"
glam = "*"
serde = { version = "*", features = ["derive"] }
