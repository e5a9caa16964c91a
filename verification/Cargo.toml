[package]
name = "bevy_slippy_tiles"
version = "0.7.0"
edition = "2021"
publish = false

[dependencies]
bevy_platform = "=0.17.3"
bevy = { version = "=0.17.3", default-features = false, features = ["bevy_asset", "bevy_sprite"] }
ehttp = { version = "=0.7.2", features = ["native-async"] }
googleprojection = "=1.2.0"
