[package]
name = "headless_display"
version = "0.1.0"
edition = "2021"
publish = false

[dependencies]
tinyqoi = "*"

[dev-dependencies]
postcard = { version = "*", features = ["alloc"] }
