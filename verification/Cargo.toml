[package]
name = "rust_dap_rp"
version = "0.1.0"
edition = "2021"
publish = false

[dependencies]
heapless = "=0.8.0"
pio = "=0.3.0"
embedded-hal = "=1.0.0"
embedded-hal-nb = "=1.0.0"
rp235x-hal = "=0.4.0"
usb-device = "=0.3.2"
usbd-serial = "=0.2.2"
rtic = { version = "=2.4.0", features = ["thumbv8main-backend"] }
cortex-m-rt = "=0.7.7"
critical-section = "=1.2.0"
fugit = "=0.3.9"
