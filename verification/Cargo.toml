[package]
name = "systems_core"
version = "0.1.0"
edition = "2021"
publish = false

[dependencies]
egui-macroquad = "*"
macroquad = "*"
rand = "0.8"
