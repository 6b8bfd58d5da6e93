[package]
name = "automapaper"
version = "0.1.0"
edition = "2021"
publish = false

[dependencies]
bytemuck = { version = "=1.25.2", features = ["derive"] }
clap = { version = "=4.6.7", features = ["derive"] }
dirs = "=6.0.0"
env_logger = "=0.11.11"
pollster = "=0.4.0"
rand = "=0.10.3"
raw-window-handle = "=0.6.2"
serde = { version = "=1.0.229", features = ["derive"] }
serde_json = "=1.0.154"
smithay-client-toolkit = { version = "=0.20.0", default-features = false }
toml = "=1.1.8"
wayland-client = { version = "=0.31.15", features = ["system"] }
wgpu = { version = "=29.0.4", features = ["glsl"] }
