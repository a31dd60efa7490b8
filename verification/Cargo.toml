[package]
name = "css"
version = "0.1.0"
edition = "2021"
publish = false

[dependencies]
simplecss = "=0.2.2"
css-color-parser = "=0.1.2"
anyhow = "1"
log = "0.4"
egui = "0.23"
notify = "5"
parking_lot = "0.12"
dark-light = "0.2"
chrono = "0.4"
pretty_env_logger = "0.4"
