[package]
name = "fpga_programmer"
version = "0.1.0"
edition = "2021"
publish = false

[dependencies]
libusb1-sys = { version = "*", features = ["vendored"] }
log = "*"
env_logger = "*"
