[package]
name = "magnet_arena"
version = "0.1.0"
edition = "2021"
publish = false

[dependencies]
avian2d = { version = "=0.3.1", default-features = false, features = ["2d", "f32", "parry-f32", "parallel"] }
bevy = { version = "=0.16.1", default-features = false, features = ["std", "async_executor", "bevy_asset", "bevy_color", "bevy_core_pipeline", "bevy_log", "bevy_render", "bevy_sprite", "bevy_window", "multi_threaded", "png", "jpeg"] }
