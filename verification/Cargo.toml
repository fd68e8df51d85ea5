[package]
name = "barcoders"
version = "0.1.0"
edition = "2021"
publish = false

[dependencies]
fdeflate = "=0.3.4"
image = "=0.24.9"
png = "=0.17.13"
