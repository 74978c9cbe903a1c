[package]
name = "echoes_in_the_fog"
version = "0.1.0"
edition = "2021"
publish = false

[dependencies]
anyhow = "=1.0.104"
bevy = { version = "=0.14.2", default-features = false, features = ["bevy_state"] }
bevy_rapier2d = { version = "=0.27.0", default-features = false, features = ["dim2", "headless"] }
bincode = "=1.3.3"
ron = "=0.8.1"
serde = { version = "=1.0.229", features = ["derive"] }
