[package]
name = "audio_rust"
version = "0.1.0"
edition = "2021"
publish = false

[dependencies]
alsa = "0.9"
cpal = "0.15"
jack = "*"
rand = "0.8"
