[package]
name = "metro_paris_astar"
version = "0.1.0"
edition = "2021"
publish = false

[dependencies]
csv = "1.3"
eframe = "0.31"
egui = "0.31"
