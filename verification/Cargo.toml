[package]
name = "autostart_manager"
version = "0.1.0"
edition = "2021"
publish = false

[dependencies]
freedesktop-desktop-entry = { version = "=0.7.19", default-features = false }
dirs = "=7.0.0"
showfile = "=0.1.1"
