[package]
name = "audio_visualizer"
version = "0.1.0"
edition = "2021"
publish = false

[dependencies]
anyhow = "1"
bytemuck = { version = "1", features = ["derive"] }
clap = { version = "4", features = ["derive"] }
cpal = "0.15"
env_logger = "0.10"
futures = "0.3"
hound = "3.5"
log = "0.4"
rustfft = "6"
