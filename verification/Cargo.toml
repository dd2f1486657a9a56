[package]
name = "insta_kill"
version = "0.1.0"
edition = "2021"
publish = false

[dependencies]
bevy = { version = "=0.12.1", default-features = false }
bevy_rapier2d = { version = "=0.23.0", default-features = false, features = ["dim2", "headless"] }
chrono = { version = "=0.4.45", default-features = false, features = ["clock"] }
rand = "=0.8.8"
rand_xoshiro = "=0.6.0"
