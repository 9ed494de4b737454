[package]
name = "pixie_zkvm"
version = "0.1.0"
edition = "2021"
publish = false

[dependencies]
plonky2 = "*"
starky = "*"
prettytable-rs = "*"
