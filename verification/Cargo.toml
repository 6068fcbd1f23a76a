[package]
name = "tank_shmup"
version = "0.1.0"
edition = "2021"
publish = false

[dependencies]
bevy = { version = "=0.8.1", default-features = false, features = ["bevy_asset", "bevy_winit", "bevy_core_pipeline", "bevy_render", "bevy_sprite", "bevy_text", "bevy_ui", "png", "x11"] }
bevy_asset_loader = { version = "0.12", features = ["2d", "stageless"] }
bevy_pkv = "0.5"
bevy_rapier2d = { version = "0.16", default-features = false, features = ["dim2"] }
iyes_loopless = "0.7"
rand = "=0.8.8"
