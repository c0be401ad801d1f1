[package]
name = "electrum"
version = "0.1.0"
edition = "2021"
publish = false

[dependencies]
indexmap = "1"
calloop = "*"
anyhow = "1"
slog = "2"
slog-scope = "4"
slog-stdlog = "4"
slog-term = "2"
smithay = { version = "*", default-features = false, features = ["wayland_frontend", "desktop"] }
xdg = "2"
