[package]
name = "voxel_terrain"
version = "0.1.0"
edition = "2021"
publish = false

[dependencies]
building-blocks = "=0.4.3"
fnv = "=1.0.7"
lz4 = "=1.28.1"
noise = "=0.7.0"
