[package]
name = "narsese"
version = "0.1.0"
edition = "2021"
publish = false

[dependencies]
nar_dev_utils = { version = "=0.44.0", features = ["bundled"] }
lazy_static = "=1.5.1"
