[package]
name = "orderflow"
version = "0.1.0"
edition = "2021"
publish = false

[dependencies]
rustc-hash = "=2.1.3"
serde = { version = "=1.0.229", features = ["derive"] }
iced = { version = "=0.14.0", default-features = false, features = ["canvas", "tiny-skia", "thread-pool", "x11"] }
iced_core = "=0.14.0"
