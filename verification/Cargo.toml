[package]
name = "lattice_grid"
version = "0.1.0"
edition = "2021"
publish = false

[dependencies]
euclid = "0.22"
