[package]
name = "nacre"
version = "0.1.0"
edition = "2021"
publish = false

[dependencies]
ammonia = "=4.2.4"
cosmic-text = "=0.19.0"
dirs = "=7.0.0"
facet = "=0.46.5"
facet-default = "=0.46.5"
facet-json = "=0.46.1"
facet-styx = "=4.0.0"
figue = "=4.0.5"
libc = "=0.2.191"
niri-ipc = "=26.4.0"
nucleo-matcher = "=0.3.1"
pam-sys = "=0.5.6"
pollster = "=1.0.1"
raw-window-handle = "=0.6.2"
serde_json = "=1.0.154"
smithay-client-toolkit = { version = "=0.21.1", default-features = false }
swash = "=0.2.10"
taffy = "=0.15.1"
tokio = { version = "=1.54.1", features = ["full"] }
tracing = "=0.1.44"
tracing-subscriber = "=0.3.23"
vello = "=0.11.0"
# Not named by the shell's code: switches on the backend features that give
# a Wayland connection its raw display handle for the GPU surface.
wayland-backend = { version = "=0.3.17", features = ["client_system", "dlopen", "rwh_06"] }
wayland-client = "=0.31.15"
zbus = { version = "=6.2.1", default-features = false, features = ["tokio", "service"] }
