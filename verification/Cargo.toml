[package]
name = "terrain_generator_2d"
version = "0.1.0"
edition = "2021"
publish = false

[dependencies]
anyhow = "*"
chrono = "*"
clap = { version = "4", features = ["derive"] }
image = "*"
log = "*"
palette = "0.6"
pretty_env_logger = "*"
rand = "0.8"
simdnoise = "*"
