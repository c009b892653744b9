[package]
name = "sim_navigation"
version = "0.1.0"
edition = "2021"
publish = false

[dependencies]
bevy = { version = "0.8", default-features = false, features = ["bevy_asset", "bevy_winit", "render", "png", "x11"] }
bevy_ecs_tilemap = "0.7"
bevy-inspector-egui = "0.12"
bevy_mouse_tracking_plugin = "0.3"
bevy_prototype_debug_lines = "0.8"
bevy_prototype_lyon = "0.6"
futures-lite = "1"
multimap = { version = "=0.8.3", default-features = false }
pathfinding = "=3.0.14"
rand = "=0.8.8"
