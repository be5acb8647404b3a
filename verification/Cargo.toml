[package]
name = "vanilla_iced"
version = "0.1.0"
edition = "2021"
publish = false

[dependencies]
itertools = "=0.13.0"
bytemuck = { version = "1", features = ["derive"] }
glam = { version = "0.25", features = ["bytemuck"] }
openh264 = "0.5"
