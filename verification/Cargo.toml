[package]
name = "lane_battle"
version = "0.1.0"
edition = "2021"
publish = false

[dependencies]
rand = "0.9"
serde = { version = "1", features = ["derive"] }
strum = "0.27"
strum_macros = "0.27"
bevy = { version = "0.17", default-features = false, features = ["bevy_sprite", "bevy_ui", "bevy_text", "bevy_asset", "bevy_window", "bevy_color", "bevy_state", "bevy_picking"] }
bevy_tweening = { version = "0.14", default-features = false }
bevy_ecs_tilemap = { version = "0.17", default-features = false }
bevy_renet = { version = "3", default-features = false }
