[package]
name = "devminds_lamp"
version = "0.1.0"
edition = "2021"
publish = false

[dependencies]
smart-leds = "=0.4.0"
embassy-executor = "=0.9.1"
embassy-time = "=0.5.1"
embassy-sync = "=0.8.0"
embassy-futures = "=0.1.2"
defmt = "=1.2.0"
thiserror = { version = "=2.0.21", default-features = false }
