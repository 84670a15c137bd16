[package]
name = "esp32s3_collector"
version = "0.1.0"
edition = "2021"
publish = false

[dependencies]
heapless = "0.8"
embedded-can = "0.4"
embedded-hal = "1"
embedded-hal-bus = "*"
embedded-io-async = "0.6"
embedded-sdmmc = "0.7"
embassy-sync = "*"
embassy-time = "*"
embassy-futures = "*"
embassy-executor = "*"
embassy-net = { version = "*", features = ["tcp", "dhcpv4", "medium-ethernet"] }
rust-mqtt = "0.3"
log = "0.4"
portable-atomic = "1"
static_cell = "*"
esp-hal = { version = "*", features = ["esp32s3"] }
esp-radio = { version = "*", features = ["esp32s3", "wifi"] }
esp-rtos = { version = "*", features = ["esp32s3", "embassy"] }
esp-alloc = "*"
esp-backtrace = { version = "*", features = ["esp32s3", "panic-handler", "println"] }
esp-println = { version = "*", features = ["esp32s3"] }
esp-bootloader-esp-idf = { version = "*", features = ["esp32s3"] }
