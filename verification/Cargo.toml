[package]
name = "serial_link"
version = "0.1.0"
edition = "2021"
publish = false

[dependencies]
cortex-m = "=0.7.10"
cortex-m-rtic = "=1.1.4"
log = "=0.4.34"
systick-monotonic = "=1.0.1"
teensy4-bsp = { version = "=0.4.8", features = ["rt", "usb-logging"] }
teensy4-panic = { version = "=0.2.3", default-features = false }
