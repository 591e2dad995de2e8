[package]
name = "mesh_channels"
version = "0.1.0"
edition = "2021"
publish = false

[dependencies]
slotmap = "=1.1.1"
bimap = "=0.6.3"
glam = "=0.20.5"
anyhow = "=1.0.104"
mlua = { version = "=0.8.10", features = ["lua54", "vendored"] }
walkdir = "2"
