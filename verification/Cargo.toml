[package]
name = "playarr"
version = "0.1.0"
edition = "2021"
publish = false

[dependencies]
bytes = "=1.12.1"
chrono = "=0.4.45"
egui = "=0.20.1"
egui_extras = { version = "=0.20.0", features = ["svg", "image"] }
egui_glow = { version = "=0.20.1", features = ["winit"] }
glow = "=0.11.2"
glutin = "=0.30.10"
lazy_static = "=1.5.1"
libmpv = { version = "=2.0.1", features = ["render", "protocols"] }
raw-window-handle = "=0.5.2"
reqwest = { version = "=0.11.27", default-features = false }
serde = { version = "=1.0.229", features = ["derive"] }
serde_json = "=1.0.154"
tokio = { version = "=1.54.1", features = ["rt-multi-thread", "sync", "macros"] }
toml = "=0.5.11"
winit = "=0.27.5"
