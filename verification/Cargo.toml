[package]
name = "embed-ui"
version = "0.1.0"
edition = "2021"
publish = false

[dependencies]
embedded-graphics = "*"
embedded-graphics-framebuf = "*"
heapless = "*"
thiserror = { version = "*", default-features = false }
profont = "*"
static_cell = "*"
embedded-graphics-simulator = "*"
