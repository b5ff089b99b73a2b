[package]
name = "next_tramway"
version = "0.1.0"
edition = "2021"
publish = false

[dependencies]
heapless = "=0.9.3"
defmt = "=1.2.0"
embassy-executor = "=0.10.0"
embassy-futures = "=0.1.2"
embassy-net = { version = "=0.9.1", features = ["tcp", "dhcpv4", "medium-ethernet", "proto-ipv4"] }
embassy-sync = "=0.8.0"
embassy-time = "=0.5.1"
esp-alloc = "=0.10.0"
esp-bootloader-esp-idf = { version = "=0.5.0", features = ["esp32"] }
esp-hal = { version = "=1.1.2", features = ["esp32", "unstable"] }
esp-println = { version = "=0.18.0", features = ["esp32"] }
esp-radio = { version = "=0.18.0", features = ["esp32", "wifi"] }
esp-rtos = { version = "=0.3.0", features = ["esp32", "embassy"] }
rust-mqtt = "=0.4.1"
static_cell = "=2.1.1"
