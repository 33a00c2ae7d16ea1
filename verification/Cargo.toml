[package]
name = "perf_ui"
version = "0.1.0"
edition = "2021"
publish = false

[dependencies]
bevy = { version = "0.16", default-features = false, features = ["std", "bevy_ui", "bevy_text", "bevy_render", "bevy_window", "bevy_color", "bevy_log", "sysinfo_plugin"] }
chrono = { version = "0.4", default-features = false, features = ["clock", "std"] }
num-traits = "0.2"
