[package]
name = "content_registry"
version = "0.1.0"
edition = "2021"
publish = false

[dependencies]
zip = { version = "*", default-features = false, features = ["deflate"] }
mlua = { version = "*", features = ["lua54", "vendored"] }
eyre = "*"
log = "*"
pretty_env_logger = "*"
winit = "*"
glium = "*"
pollster = "*"
