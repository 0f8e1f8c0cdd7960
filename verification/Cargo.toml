[package]
name = "quartzite"
version = "0.1.0"
edition = "2021"
publish = false

[dependencies]
indexmap = "2"
winit = "0.30"
parking_lot = "0.12"
thiserror = "2"
