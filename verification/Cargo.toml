[package]
name = "wavefront"
version = "0.1.0"
edition = "2021"
publish = false

[dependencies]
bevy = { version = "=0.14.2", default-features = false }
egui = { version = "=0.29.1", default-features = false }
serde = { version = "=1.0.229", features = ["derive"] }
serde_json = "=1.0.154"
rand = "=0.8.8"
rand_distr = "=0.4.3"
hound = "=3.5.1"
csv = "=1.4.0"
rayon = "=1.12.0"
spectrum-analyzer = "1"
