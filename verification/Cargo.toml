[package]
name = "mondrian"
version = "0.1.0"
edition = "2021"
publish = false

[dependencies]
assert-offset = "*"
bitflags = "2"
bytemuck = { version = "1", features = ["derive"] }
glam = { version = "0.30", features = ["bytemuck"] }
slotmap = "1"
wgpu = "25"
