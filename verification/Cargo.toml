[package]
name = "micromouse"
version = "0.1.0"
edition = "2021"
publish = false

[dependencies]
arrayvec = "0.5"
pid_control = "*"
rand = { version = "0.7", default-features = false, features = ["small_rng"] }
