[package]
name = "egui_citizen"
version = "0.1.0"
edition = "2021"
publish = false

[dependencies]
egui_mobius_reactive = "*"
