[package]
name = "leroyjenkins"
version = "0.1.0"
edition = "2021"
publish = false

[dependencies]
libc = "*"
clap = { version = "*", features = ["derive"] }
humantime = "*"
log = "*"
pretty_env_logger = "*"
