[package]
name = "simulated_annealing"
version = "0.2.0"
edition = "2021"
publish = false

[dependencies]
anyhow = "1"
itertools = "0.10"
num = "0.4"
rand = "0.8"
rand_distr = "0.4"
rand_xoshiro = "0.6"
