[package]
name = "xrandr_block"
version = "0.1.0"
edition = "2021"
publish = false

[dependencies]
regex = "1"
serde = { version = "1", features = ["derive"] }
crossbeam-channel = "0.5"
