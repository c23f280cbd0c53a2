[package]
name = "active_volume"
version = "0.1.0"
edition = "2021"
publish = false

[dependencies]
sysinfo = "*"
libc = "*"
clap = "*"
libpulse-sys = "*"
xcb = "0.9"
xcb-util = { version = "0.3", features = ["ewmh"] }
