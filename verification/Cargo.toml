[package]
name = "electrolux_ir"
version = "0.1.0"
edition = "2021"
publish = false

[dependencies]
heapless = "0.8"
embedded-hal = "1"
embedded-hal-bus = "0.3"
esp-hal = { version = "1", features = ["esp32", "unstable"] }
esp-println = { version = "*", features = ["esp32"] }
esp-backtrace = { version = "*", features = ["esp32", "panic-handler", "println"] }
esp-bootloader-esp-idf = { version = "*", features = ["esp32"] }
mipidsi = "0.9"
