[package]
name = "pendulum_core"
version = "0.1.0"
edition = "2021"
publish = false

[dependencies]
bevy = { version = "0.16", default-features = false, features = ["bevy_pbr", "bevy_window", "bevy_winit", "x11"] }
glam = "=0.29.3"
