[package]
name = "termway"
version = "0.1.0"
edition = "2021"
publish = false

[dependencies]
anyhow = "1"
base64 = "0.22"
clap = { version = "4", features = ["derive"] }
crossterm = "0.29"
image = { version = "0.25", default-features = false, features = ["png", "pnm"] }
rustix = { version = "1", features = ["fs", "stdio"] }
serde = { version = "1", features = ["derive"] }
serde_json = "1"
toml = "0.8"
wayland-client = "0.31"
wayland-protocols-misc = { version = "0.3", features = ["client"] }
wayland-protocols-wlr = { version = "0.3", features = ["client"] }
zbus = "5"
