[package]
name = "computer-use-linux"
version = "0.1.0"
edition = "2021"
publish = false

[dependencies]
anyhow = "=1.0.104"
ashpd = { version = "=0.13.13", default-features = false, features = ["tokio", "screencast"] }
base64 = "=0.23.1"
clap = { version = "=4.6.7", features = ["derive"] }
fs2 = "=0.4.3"
gbm = "=0.18.0"
gio-unix = "=0.22.8"
gstreamer = "=0.25.4"
gstreamer-app = "=0.25.2"
gstreamer-video = "=0.25.4"
gtk4 = { version = "=0.11.5", features = ["v4_14"] }
image = { version = "=0.25.10", default-features = false, features = ["png"] }
# For gstreamer; later releases ask for a newer compiler.
kstring = "=2.0.2"
memmap2 = "=0.9.12"
niri-ipc = "=26.4.0"
nix = { version = "=0.31.3", features = ["fs", "poll", "process", "signal", "socket", "user"] }
rmcp = { version = "=3.8.0", features = ["server", "transport-io", "macros"] }
serde = { version = "=1.0.229", features = ["derive"] }
serde_json = "=1.0.154"
tempfile = "=3.27.0"
tokio = { version = "=1.54.1", features = ["full"] }
tracing = "=0.1.44"
tracing-subscriber = "=0.3.23"
uuid = { version = "=1.29.0", features = ["v4"] }
wayland-client = "=0.31.15"
wayland-protocols = { version = "=0.32.13", features = ["client", "staging", "unstable"] }
wayland-protocols-misc = { version = "=0.3.12", features = ["client"] }
wayland-protocols-wlr = { version = "=0.3.12", features = ["client"] }
x11rb = { version = "=0.14.0", features = ["res"] }
zbus = "=5.19.0"
