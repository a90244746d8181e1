[package]
name = "athena"
version = "0.1.0"
edition = "2021"
publish = false

[dependencies]
eunomia = "*"
leto = "*"
leto-ops = "*"
hephaestus-core = "*"
bytemuck = "*"
