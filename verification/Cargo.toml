[package]
name = "polygon"
version = "0.1.0"
edition = "2021"
publish = false

[dependencies]
indexmap = "2"
bytemuck = "1"
image = { version = "0.25", default-features = false }
