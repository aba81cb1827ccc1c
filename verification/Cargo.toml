[package]
name = "phonto"
version = "0.1.0"
edition = "2021"
publish = false

[dependencies]
anyhow = "1"
clap = { version = "4", features = ["derive"] }
env_logger = "0.11"
glow = "0.16"
glutin = "0.32"
gstreamer = "0.23"
gstreamer-app = "0.23"
gstreamer-gl = "0.23"
gstreamer-gl-egl = "0.23"
gstreamer-video = "0.23"
log = "0.4"
rand = "0.9"
raw-window-handle = "0.6"
serde = { version = "1", features = ["derive"] }
serde_json = { version = "1", features = ["preserve_order"] }
tempfile = "3"
toml = "0.8"
uuid = { version = "1", features = ["v5"] }
wayland-client = { version = "0.31", features = ["system"] }
wayland-protocols-wlr = { version = "0.3", features = ["client"] }
