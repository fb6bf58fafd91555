[package]
name = "waypenguin"
version = "0.1.0"
edition = "2021"
publish = false

[dependencies]
fastrand = "=2.5.0"
serde = { version = "=1.0.229", features = ["derive"] }
resvg = { version = "=0.49.0", default-features = false }
usvg = { version = "=0.49.0", default-features = false }
tiny-skia = "=0.12.0"
smithay-client-toolkit = { version = "=0.19.2", default-features = false }
wayland-client = "=0.31.15"
wayland-protocols = { version = "=0.32.13", features = ["client", "unstable"] }
