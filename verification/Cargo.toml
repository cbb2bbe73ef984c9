[package]
name = "tailrace"
version = "0.1.0"
edition = "2021"
publish = false

[dependencies]
xkbcommon = "0.8"
toml = "0.8"
serde = { version = "1", features = ["derive"] }
libc = "0.2"
wayland-client = "0.31"
