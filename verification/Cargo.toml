[package]
name = "mmurtl_rs"
version = "0.1.0"
edition = "2021"
publish = false

[dependencies]
heapless = "0.8"
x86_64 = { version = "0.14", default-features = false, features = ["instructions"] }
spin = "0.9"
uart_16550 = { version = "0.3", default-features = false }
bootloader_api = "0.11"
