[package]
name = "nn"
version = "0.1.0"
edition = "2021"
publish = false

[dependencies]
mnist = "*"
ndarray = "*"
rand = "*"
rand_distr = "*"
