[package]
name = "tinycloudinit"
version = "1.0.0"
edition = "2021"
publish = false

[dependencies]
base64 = "0.22"
libc = "0.2"
serde = { version = "1", features = ["derive"] }
serde_yaml = "0.9"
