[package]
name = "petri"
version = "0.1.0"
edition = "2021"
publish = false

[dependencies]
hdrhistogram = { version = "7", default-features = false }
slotmap = "1"
quanta = "*"
fps_counter = "*"
num-format = "*"
serde = { version = "1", features = ["derive"] }
ron = "*"
rand = "*"
glam = "*"
lazy_static = "1"
spin = "*"
