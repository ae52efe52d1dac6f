[package]
name = "platform_linux"
version = "0.1.0"
edition = "2021"
publish = false

[dependencies]
libc = "0.2"
ring = "0.17"
serde = { version = "1.0", features = ["derive"] }
serde_json = "1.0"
thiserror = "2.0"
