[package]
name = "retype"
version = "0.1.0"
edition = "2021"
publish = false

[dependencies]
anyhow = "1"
arboard = { version = "3", default-features = false }
evdev = "0.13"
inotify = { version = "0.11", default-features = false }
log = "0.4"
rdev = "0.5"
selection = "*"
tracing = "0.1"
tracing-subscriber = { version = "0.3", features = ["env-filter"] }
tray-item = { version = "0.10", features = ["ksni"] }
unicode-segmentation = "1"
