[package]
name = "recorder"
version = "0.1.0"
edition = "2021"
publish = false

[dependencies]
anyhow = "*"
bytes = "*"
crossbeam-channel = "*"
mp4 = "*"
openh264 = "*"
yuvutils-rs = "0.4"
