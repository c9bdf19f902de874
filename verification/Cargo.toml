[package]
name = "rustray"
version = "0.1.0"
edition = "2021"
publish = false

[dependencies]
rand = "=0.8.8"
regex = "=1.13.1"
image = { version = "=0.25.10", default-features = false, features = ["png"] }
nalgebra = "=0.35.0"
parry3d = "=0.31.1"
serde_json = "=1.0.154"
chrono = "=0.4.45"
num_cpus = "=1.17.0"
tobj = "=4.0.5"
easy-gltf = "*"
