[package]
name = "marching_squares"
version = "0.1.0"
edition = "2021"
publish = false

[dependencies]
noise = { version = "=0.8.2", default-features = false }
bevy = { version = "=0.10.1", default-features = false, features = ["bevy_asset", "bevy_core_pipeline", "bevy_render", "bevy_sprite", "bevy_winit", "x11"] }
bevy_egui = { version = "=0.20.3", default-features = false, features = ["default_fonts"] }
bevy_prototype_debug_lines = { version = "=0.10.2", default-features = false, features = ["shapes"] }
