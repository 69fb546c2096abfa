[package]
name = "playback_sync"
version = "0.1.0"
edition = "2021"
publish = false

[dependencies]
chrono = "0.4"
regex = "1"
notify = "6"
signal-hook = "0.3"
