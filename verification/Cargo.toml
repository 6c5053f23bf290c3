[package]
name = "romview"
version = "0.1.0"
edition = "2021"
publish = false

[dependencies]
clap = { version = "3.2", default-features = false, features = ["std"] }
gl = "0.14"
glfw = { version = "0.45", default-features = false }
memmap = "0.5"
