[package]
name = "jelly_fpga_client"
version = "0.1.0"
edition = "2021"
publish = false

[dependencies]
tonic = "0.12"
prost = "0.13"
futures-core = "0.3"
