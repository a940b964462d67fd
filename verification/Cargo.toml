[package]
name = "collisioneer"
version = "0.1.0"
edition = "2021"
publish = false

[dependencies]
bevy = { version = "0.13", default-features = false }
nalgebra = "0.32"
parry3d = "0.13"
