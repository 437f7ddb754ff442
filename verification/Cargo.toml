[package]
name = "poly_circuit"
version = "0.1.0"
edition = "2021"
publish = false

[dependencies]
bellperson = "*"
blstrs = "*"
rand = "0.8"
