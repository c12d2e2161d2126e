[package]
name = "bevy_webgate"
version = "0.2.0"
edition = "2021"
publish = false

[dependencies]
axum = { version = "=0.8.9", default-features = false }
bevy_defer = { version = "=0.18.0", default-features = false }
mime_guess = "=2.0.5"
bevy_app = "0.19"
bevy_ecs = "0.19"
bevy_log = { version = "0.19", default-features = false }
bevy_derive = "0.19"
async-io = "=2.6.0"
hyper = { version = "=1.12.0", features = ["http1", "server"] }
hyper-util = { version = "=0.1.21", features = ["service"] }
smol-hyper = "=0.1.1"
tower = { version = "=0.5.3", default-features = false }
thiserror = "=2.0.21"
