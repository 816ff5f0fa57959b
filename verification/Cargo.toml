[package]
name = "ffsampling"
version = "0.1.0"
edition = "2021"
publish = false

[dependencies]
num-complex = "0.4"
rand = "0.8"
rand_distr = "0.4"
