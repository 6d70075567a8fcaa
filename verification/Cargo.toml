[package]
name = "peripheral_workers"
version = "0.1.0"
edition = "2021"
publish = false

[dependencies]
anyhow = "1"
log = "0.4"
embedded-graphics = "0.8"
embedded-hal = "1"
embedded-svc = "0.28"
epd-waveshare = "0.6"
esp-idf-hal = "0.45"
esp-idf-svc = "0.51"
