[package]
name = "scene_graph"
version = "0.1.0"
edition = "2021"
publish = false

[dependencies]
fnv = "1.0"
yaml-rust = "0.4"
clap = "2"
app_units = "0.7"
