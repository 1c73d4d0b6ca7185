[package]
name = "tileworld"
version = "0.1.0"
edition = "2021"
publish = false

[dependencies]
macroquad = { version = "0.4", default-features = false }
miniquad = "0.4"
noise = "0.9"
serde = { version = "1", features = ["derive"] }
serde_json = "1"
sysinfo = "0.29"
