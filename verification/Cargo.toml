[package]
name = "ft_engine"
version = "0.1.0"
edition = "2021"
publish = false

[dependencies]
anyhow = "1"
ash = "0.38"
glam = "0.29"
vk-mem = "0.4"
winit = "0.30"
