[package]
name = "uereplay"
version = "0.1.0"
edition = "2021"
publish = false

[dependencies]
hex = "0.4"
serde = { version = "1", features = ["derive"] }
serde_bytes = "0.11"
bincode = "1"
byteorder = "1"
aes-soft = "0.6"
block-modes = "0.7"
libloading = "0.7"
