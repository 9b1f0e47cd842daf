[package]
name = "sayo_pbr_rs"
version = "0.1.0"
edition = "2021"
publish = false

[dependencies]
byteorder = "1"
crossbeam = "0.8"
flexi_logger = "*"
log = "0.4"
ndarray = { version = "0.15", features = ["rayon"] }
tev_client = "*"
tobj = "*"
toml = "0.5"
