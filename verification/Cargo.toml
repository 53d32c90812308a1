[package]
name = "ws2812_blocking_spi"
version = "0.1.0"
edition = "2021"
publish = false

[dependencies]
embedded-hal = "0.2"
smart-leds-trait = "0.2"
