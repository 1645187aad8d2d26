[package]
name = "ffmpeg_player"
version = "0.1.0"
edition = "2021"
publish = false

[dependencies]
bytemuck = "=1.25.2"
cpal = "=0.15.3"
egui = { version = "=0.27.2", default-features = false }
ffmpeg-the-third = "=3.0.2"
oneshot = "=0.1.13"
thiserror = "=1.0.69"
