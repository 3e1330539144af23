[package]
name = "keyboard_rs"
version = "0.1.0"
edition = "2021"
publish = false

[dependencies]
cortex-m = "0.7"
critical-section = "1"
embedded-hal = { version = "0.2", features = ["unproven"] }
frunk = { version = "0.4", default-features = false }
fugit = "0.3"
rp2040-hal = "0.9"
usb-device = "0.2"
usbd-human-interface-device = "0.4"
