[package]
name = "light_rail"
version = "0.1.0"
edition = "2021"
publish = false

[dependencies]
heapless = "0.8"
random-trait = "0.1.1"
as1115 = "0.1.0"
embedded-hal = "1.0.0"
embedded-hal-bus = "0.3.0"
avr-device = { version = "0.7", features = ["atmega32u4"] }
