[package]
name = "hulk_gamma"
version = "0.1.0"
edition = "2021"
publish = false

[dependencies]
memfd = "0.4"
ron = "*"
serde = { version = "1", features = ["derive"] }
clap = { version = "4", features = ["derive"] }
wayland-client = "0.31"
wayland-protocols-wlr = { version = "0.3", features = ["client"] }
