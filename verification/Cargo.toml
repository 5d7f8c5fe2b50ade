[package]
name = "monado-frame"
version = "0.1.0"
edition = "2021"
publish = false

[dependencies]
anyhow = "=1.0.104"
ash = "=0.38.0"
base64 = "=0.22.1"
chrono = "=0.4.45"
egui = "0.31"
egui-ash-renderer = { version = "0.8", features = ["gpu-allocator"] }
egui-phosphor = "0.9"
env_logger = "=0.11.11"
gpu-allocator = "0.27"
image = { version = "=0.25.10", default-features = false, features = ["png"] }
libmonado = "=1.6.0"
log = "=0.4.35"
openxr = { version = "0.20", features = ["linked"] }
rqrr = "=0.11.0"
serde_json = "=1.0.154"
ureq = { version = "=3.5.1", features = ["json"] }
