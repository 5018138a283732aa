[package]
name = "catremote"
version = "0.1.0"
edition = "2021"
publish = false

[dependencies]
bytes = "=1.12.1"
serde = { version = "=1.0.229", features = ["derive"] }
serde_json = "=1.0.154"
anyhow = "=1.0.104"
thiserror = "=1.0.69"
tokio = { version = "=1.54.1", features = ["full"] }
clap = { version = "=4.6.7", features = ["derive"] }
async-trait = "=0.1.92"
parking_lot = "=0.12.5"
tracing = "=0.1.44"
tracing-subscriber = "=0.3.23"
quinn = "=0.11.12"
rustls = { version = "=0.23.46", default-features = false, features = ["ring", "std", "logging", "tls12"] }
rcgen = "=0.13.2"
pem = "=3.0.6"
rand = "=0.8.8"
evdev = "=0.12.2"
zbus = "=4.4.0"
zvariant = "=4.2.0"
wayland-client = "=0.31.15"
wayland-protocols = { version = "0.32", features = ["client", "staging"] }
wayland-protocols-wlr = { version = "0.3", features = ["client"] }
nix = { version = "=0.29.0", features = ["fs", "mman"] }
libc = "=0.2.191"
nvml-wrapper = "=0.10.0"
pipewire = "0.8"
opus = "0.3"
