[package]
name = "rt"
version = "0.1.0"
edition = "2021"
publish = false

[dependencies]
bvh = "=0.11.0"
enum_dispatch = "=0.3.13"
gltf = "=1.4.1"
hw-skymodel = "=0.1.1"
image = { version = "=0.25.10", default-features = false, features = ["png", "jpeg", "webp"] }
itertools = "=0.13.0"
nalgebra = "=0.33.3"
pixels = "0.13"
rand = "=0.8.8"
rayon = "=1.12.0"
tobj = "=4.0.5"
winit = "0.28"
