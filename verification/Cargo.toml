[package]
name = "figments"
version = "0.1.0"
edition = "2021"
publish = false

[dependencies]
num = "0.4"
ringbuf = "0.4"
rgb = "0.8"
smart-leds-trait = "0.3"
micromath = "2"
