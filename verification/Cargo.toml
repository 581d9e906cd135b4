[package]
name = "bevy_egui_commands"
version = "0.1.0"
edition = "2021"
publish = false

[dependencies]
bevy_ecs = { version = "0.15", default-features = false }
bevy_log = "0.15"
egui = { version = "0.31", default-features = false }
