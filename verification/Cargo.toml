[package]
name = "torii"
version = "0.1.0"
edition = "2021"
publish = false

[dependencies]
zbus = "=5.19.0"
fe2o3-crust = "=0.1.71"
