[package]
name = "tupli"
version = "0.1.0"
edition = "2021"
publish = false

[dependencies]
anyhow = "1"
libc = "0.2"
log = "0.4"
objc = "0.2"
raw-window-handle = "0.6"
rust-embed = "8"
serde = { version = "1", features = ["derive"] }
serde_json = "1"
smallvec = "1"
uuid = { version = "1", features = ["v4", "serde"] }
