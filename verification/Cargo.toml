[package]
name = "disk_image"
version = "0.1.0"
edition = "2021"
publish = false

[dependencies]
libc = "0.2"
nix = { version = "0.29", features = ["ioctl"] }
gettext-rs = { version = "0.7", features = ["gettext-system"] }
log = "0.4"
