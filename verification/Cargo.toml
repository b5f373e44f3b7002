[package]
name = "shoe_crossing"
version = "0.1.0"
edition = "2021"
publish = false

[dependencies]
bevy = { version = "=0.10.1", default-features = false, features = ["bevy_asset", "bevy_core_pipeline", "bevy_render", "bevy_sprite", "bevy_text", "bevy_ui", "bevy_winit", "png", "x11"] }
clap = "=3.2.25"
rand = "=0.8.8"
ron = "=0.8.1"
serde = { version = "=1.0.229", features = ["derive"] }
