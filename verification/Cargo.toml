[package]
name = "fuzzy_cmeans"
version = "0.1.0"
edition = "2021"
publish = false

[dependencies]
csv = "1"
ndarray = "0.15"
num-traits = "0.2"
rand = "0.8"
term_size = "0.3"
