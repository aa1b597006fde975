[package]
name = "colortool"
version = "0.1.0"
edition = "2021"
publish = false

[dependencies]
bytemuck = "=1.25.2"
calloop = "=0.14.5"
crossterm = "=0.29.0"
gbm = { version = "=0.18.0", default-features = false, features = ["drm-support"] }
half = { version = "=2.7.1", features = ["bytemuck"] }
ratatui = "=0.30.2"
rgb = { version = "=0.8.53", features = ["bytemuck"] }
smithay-client-toolkit = { version = "=0.20.0", default-features = false, features = ["calloop"] }
thiserror = "=2.0.21"
tracing = "=0.1.44"
tracing-subscriber = "=0.3.23"
wayland-client = "=0.31.15"
wayland-protocols = { version = "=0.32.13", features = ["client", "staging", "unstable"] }
