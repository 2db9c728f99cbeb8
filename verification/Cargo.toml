[package]
name = "grove-lcd-rgb"
version = "0.1.0"
edition = "2021"
publish = false

[dependencies]
embedded-hal = "=1.0.0"
embedded-hal-bus = "=0.3.0"
embedded-sht3x = "=0.1.0"
esp-hal = { version = "=1.2.2", features = ["esp32c6", "unstable"] }
esp-alloc = "=0.11.0"
esp-backtrace = { version = "=0.20.0", features = ["esp32c6", "panic-handler", "println"] }
esp-bootloader-esp-idf = { version = "=0.6.0", features = ["esp32c6"] }
esp-println = { version = "=0.18.0", features = ["esp32c6"] }
