[package]
name = "mod_workbench"
version = "0.1.0"
edition = "2021"
publish = false

[dependencies]
serde_json = "1"
egui = "0.31"
egui_extras = "0.31"
rfd = "0.15"
