[package]
name = "image_embedder"
version = "0.1.0"
edition = "2021"
publish = false

[dependencies]
image = "0.24"
ndarray = "*"
num_cpus = "*"
ort = "=2.0.0-rc.13"
libvips = "*"
reqwest = { version = "0.11", default-features = false, features = ["blocking"] }
serde = { version = "1", features = ["derive"] }
tokio = { version = "1", features = ["rt-multi-thread"] }
toml = "*"
