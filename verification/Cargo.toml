[package]
name = "svitek"
version = "0.1.0"
edition = "2021"
publish = false

[dependencies]
async-channel = "2"
dirs = "*"
env_logger = "*"
glib = "*"
gtk4 = { version = "*", features = ["v4_12"] }
gtk4-layer-shell = "*"
libc = "0.2"
log = "0.4"
serde = { version = "1", features = ["derive"] }
swayipc = "*"
toml = "*"
wayland-client = "0.31"
wayland-protocols-misc = { version = "*", features = ["client"] }
wayland-protocols-wlr = { version = "*", features = ["client"] }
