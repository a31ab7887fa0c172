[package]
name = "bounded_gene"
version = "0.1.0"
edition = "2021"
publish = false

[dependencies]
nsga = "*"
rand = "0.8"
