[package]
name = "bevy_audio"
version = "0.1.0"
edition = "2021"
publish = false

[dependencies]
crossbeam-channel = "=0.5.17"
rodio = { version = "=0.21.1", default-features = false }
bevy_asset = "=0.20.0"
