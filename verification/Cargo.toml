[package]
name = "bits_and_blocks"
version = "0.1.0"
edition = "2021"
publish = false

[dependencies]
bevy = { version = "=0.15.3", default-features = false, features = ["bevy_asset", "bevy_core_pipeline", "bevy_pbr", "bevy_render", "bevy_ui", "bevy_text", "bevy_state", "bevy_picking", "bevy_mesh_picking_backend", "bevy_ui_picking_backend", "bevy_window", "default_font", "png"] }
bevy_simple_text_input = "=0.10.2"
bevy_atmosphere = "=0.12.2"
serde = { version = "=1.0.229", features = ["derive"] }
bincode = { version = "=2.0.1", features = ["serde"] }
serde_json = "=1.0.154"
