[package]
name = "bevy_async_ecs"
version = "0.1.0"
edition = "2021"
publish = false

[dependencies]
async-channel = "=2.5.0"
bevy_app = { version = "=0.18.1", default-features = false }
bevy_ecs = { version = "=0.18.1", default-features = false }
bevy_malek_async = "=0.3.0"
bevy_platform = { version = "=0.18.1", default-features = false, features = ["std"] }
bevy_reflect = { version = "=0.18.1", default-features = false }

[dev-dependencies]
futures-lite = "=2.6.1"
pollster = "=1.0.1"
