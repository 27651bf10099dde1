[package]
name = "f042-ftdi"
version = "0.1.0"
edition = "2021"
publish = false

[dependencies]
usb-device = "0.2"
stm32f0xx-hal = { version = "0.17", features = ["stm32f042", "rt", "stm32-usbd"] }
cortex-m-rt = "0.6"
rtt-target = { version = "0.2", features = ["cortex-m"] }
panic-rtt-target = { version = "0.1", features = ["cortex-m"] }
