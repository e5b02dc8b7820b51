[package]
name = "gltf_opt"
version = "0.1.0"
edition = "2021"
publish = false

[dependencies]
fast_image_resize = { version = "5", features = ["image"] }
gltf = "1.4"
image = { version = "0.25", default-features = false, features = ["jpeg", "png", "webp"] }
ktx2-rw = "*"
num_cpus = "1"
